//! Saved chat sessions and which of them is open.

use vstd::prelude::*;
use crate::text::str_eq;

verus! {

/// One message of a chat: who wrote it and what it says.
#[derive(Debug)]
pub struct ChatMessage {
    pub role: String,
    pub content: String,
}

/// A saved chat: its identifier, title, model and messages.
#[derive(Debug)]
pub struct ChatSession {
    pub id: String,
    pub title: String,
    pub model: String,
    pub messages: Vec<ChatMessage>,
}

/// The identifiers of `chats`, in order.
pub open spec fn chat_ids(chats: Seq<ChatSession>) -> Seq<Seq<char>> {
    chats.map_values(|c: ChatSession| c.id@)
}

/// Index of the first identifier equal to `id`, if any.
pub open spec fn first_index_of(ids: Seq<Seq<char>>, id: Seq<char>) -> Option<int>
    decreases ids.len(),
{
    if ids.len() == 0 {
        None
    } else if ids[0] == id {
        Some(0)
    } else {
        match first_index_of(ids.drop_first(), id) {
            Some(i) => Some(i + 1),
            None => None,
        }
    }
}

/// The chats whose identifier differs from `id`, in order.
pub open spec fn without_id(chats: Seq<ChatSession>, id: Seq<char>) -> Seq<ChatSession>
    decreases chats.len(),
{
    if chats.len() == 0 {
        Seq::empty()
    } else if chats.last().id@ == id {
        without_id(chats.drop_last(), id)
    } else {
        without_id(chats.drop_last(), id).push(chats.last())
    }
}

pub proof fn lemma_first_index_of(ids: Seq<Seq<char>>, id: Seq<char>)
    ensures
        match first_index_of(ids, id) {
            Some(p) => 0 <= p < ids.len() && ids[p] == id && forall|j: int|
                0 <= j < p ==> ids[j] != id,
            None => forall|j: int| 0 <= j < ids.len() ==> ids[j] != id,
        },
    decreases ids.len(),
{
    if ids.len() > 0 && ids[0] != id {
        lemma_first_index_of(ids.drop_first(), id);
        assert forall|j: int| 0 < j < ids.len() implies ids[j] == ids.drop_first()[j - 1] by {}
    }
}

pub proof fn lemma_first_index_unique(ids: Seq<Seq<char>>, id: Seq<char>, p: int)
    requires
        0 <= p < ids.len(),
        ids[p] == id,
        forall|j: int| 0 <= j < p ==> ids[j] != id,
    ensures
        first_index_of(ids, id) == Some(p),
{
    lemma_first_index_of(ids, id);
    match first_index_of(ids, id) {
        Some(q) => {
            if q < p {
                assert(ids[q] != id);
            } else if p < q {
                assert(ids[p] != id);
            }
        },
        None => {
            assert(ids[p] != id);
        },
    }
}

pub proof fn lemma_first_index_none(ids: Seq<Seq<char>>, id: Seq<char>)
    requires
        forall|j: int| 0 <= j < ids.len() ==> ids[j] != id,
    ensures
        first_index_of(ids, id) is None,
{
    lemma_first_index_of(ids, id);
    if let Some(q) = first_index_of(ids, id) {
        assert(ids[q] != id);
    }
}

/// After a chat is deleted, no chat with its identifier is left.
pub proof fn law_deleted_chat_is_gone(chats: Seq<ChatSession>, id: Seq<char>)
    ensures
        first_index_of(chat_ids(without_id(chats, id)), id) is None,
        without_id(chats, id).len() <= chats.len(),
    decreases chats.len(),
{
    if chats.len() > 0 {
        law_deleted_chat_is_gone(chats.drop_last(), id);
    }
    let w = without_id(chats, id);
    let ids = chat_ids(w);
    assert forall|j: int| 0 <= j < ids.len() implies ids[j] != id by {
        lemma_without_id_members(chats, id, j);
    }
    lemma_first_index_none(ids, id);
}

proof fn lemma_without_id_members(chats: Seq<ChatSession>, id: Seq<char>, j: int)
    requires
        0 <= j < without_id(chats, id).len(),
    ensures
        without_id(chats, id)[j].id@ != id,
    decreases chats.len(),
{
    if chats.len() > 0 {
        let w = without_id(chats.drop_last(), id);
        if chats.last().id@ == id || j < w.len() {
            lemma_without_id_members(chats.drop_last(), id, j);
        }
    }
}

/// The saved chats and the identifier of the open one.
#[derive(Debug)]
pub struct ChatStore {
    chats: Vec<ChatSession>,
    active_id: Option<String>,
}

impl ChatStore {
    /// The chats, in order.
    pub closed spec fn chats(&self) -> Seq<ChatSession> {
        self.chats@
    }

    /// The identifier of the open chat, if one is open.
    pub closed spec fn active(&self) -> Option<Seq<char>> {
        match self.active_id {
            Some(s) => Some(s@),
            None => None,
        }
    }

    /// A store holding the chats read back from disk, none of them open.
    pub fn from_chats(chats: Vec<ChatSession>) -> (s: ChatStore)
        ensures
            s.chats() == chats@,
            s.active() is None,
    {
        ChatStore { chats, active_id: None }
    }

    fn position_of(&self, id: &str) -> (r: Option<usize>)
        ensures
            match first_index_of(chat_ids(self.chats()), id@) {
                Some(p) => r is Some && r->0 == p,
                None => r is None,
            },
            r matches Some(i) ==> i < self.chats().len(),
    {
        let ghost ids = chat_ids(self.chats@);
        let mut i: usize = 0;
        while i < self.chats.len()
            invariant
                i <= self.chats@.len(),
                ids == chat_ids(self.chats@),
                forall|j: int| 0 <= j < i ==> ids[j] != id@,
            decreases self.chats@.len() - i,
        {
            if str_eq(self.chats[i].id.as_str(), id) {
                proof {
                    lemma_first_index_unique(ids, id@, i as int);
                }
                return Some(i);
            }
            i = i + 1;
        }
        proof {
            lemma_first_index_none(ids, id@);
        }
        None
    }

    /// The open chat: the first chat with the open identifier, or `None`
    /// when no chat is open or none has that identifier.
    pub fn get_active(&self) -> (r: Option<&ChatSession>)
        ensures
            match self.active() {
                None => r is None,
                Some(a) => match first_index_of(chat_ids(self.chats()), a) {
                    Some(p) => r matches Some(c) && *c == self.chats()[p],
                    None => r is None,
                },
            },
    {
        match &self.active_id {
            None => None,
            Some(a) => match self.position_of(a.as_str()) {
                Some(p) => Some(&self.chats[p]),
                None => None,
            },
        }
    }

    /// Opens the chat with identifier `id`; the empty identifier closes
    /// the open chat.
    pub fn set_active(&mut self, id: &str)
        ensures
            final(self).chats() == old(self).chats(),
            final(self).active() == (if id@.len() == 0 {
                None::<Seq<char>>
            } else {
                Some(id@)
            }),
    {
        if id.is_empty() {
            self.active_id = None;
        } else {
            self.active_id = Some(id.to_owned());
        }
    }

    /// All chats, in order.
    pub fn all_chats(&self) -> (r: &[ChatSession])
        ensures
            r@ == self.chats(),
    {
        self.chats.as_slice()
    }

    /// Deletes every chat with identifier `id` and closes it if it was
    /// open. The caller saves the store afterwards.
    pub fn delete_chat(&mut self, id: &str)
        ensures
            final(self).chats() == without_id(old(self).chats(), id@),
            final(self).active() == (if old(self).active() == Some(id@) {
                None::<Seq<char>>
            } else {
                old(self).active()
            }),
    {
        let ghost orig = self.chats@;
        let mut i: usize = 0;
        let ghost mut k: int = 0;
        assert(orig.take(0) =~= Seq::<ChatSession>::empty());
        assert(orig.skip(0) =~= orig);
        while i < self.chats.len()
            invariant
                0 <= i <= k <= orig.len(),
                i <= self.chats@.len(),
                self.chats@.take(i as int) == without_id(orig.take(k), id@),
                self.chats@.skip(i as int) == orig.skip(k),
                self.chats@.len() - i == orig.len() - k,
                self.active_id == old(self).active_id,
            decreases self.chats@.len() - i,
        {
            let ghost before = self.chats@;
            assert(before.skip(i as int)[0] == orig[k]);
            assert(orig.take(k + 1).drop_last() =~= orig.take(k));
            assert(orig.take(k + 1).last() == orig[k]);
            if str_eq(self.chats[i].id.as_str(), id) {
                let _gone = self.chats.remove(i);
                assert(self.chats@.take(i as int) =~= before.take(i as int));
                assert forall|j: int| 0 <= j < self.chats@.len() - i implies #[trigger] self.chats@.skip(
                    i as int,
                )[j] == orig.skip(k + 1)[j] by {
                    assert(before.skip(i as int)[j + 1] == orig.skip(k)[j + 1]);
                }
                assert(self.chats@.skip(i as int) =~= orig.skip(k + 1));
            } else {
                assert(self.chats@.take(i + 1) =~= before.take(i as int).push(orig[k]));
                assert forall|j: int| 0 <= j < self.chats@.len() - i - 1 implies #[trigger] self.chats@.skip(
                    i + 1,
                )[j] == orig.skip(k + 1)[j] by {
                    assert(before.skip(i as int)[j + 1] == orig.skip(k)[j + 1]);
                }
                assert(self.chats@.skip(i + 1) =~= orig.skip(k + 1));
                i = i + 1;
            }
            proof {
                k = k + 1;
            }
        }
        assert(self.chats@.skip(i as int).len() == 0);
        assert(orig.take(k) =~= orig);
        assert(self.chats@.take(i as int) =~= self.chats@);
        let clear = match &self.active_id {
            Some(a) => str_eq(a.as_str(), id),
            None => false,
        };
        if clear {
            self.active_id = None;
        }
    }
}

} // verus!
