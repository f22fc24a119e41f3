//! Conversation history and where it is kept between calls.

use vstd::prelude::*;

use crate::llm;
use crate::llm::ChatMessage;
use crate::llm::MessageView;
use crate::name_map::NameMap;

verus! {

/// Whose turn a stored message is. Tool turns are not stored.
#[derive(Debug, Clone, Copy, PartialEq, Eq, Structural)]
pub enum Role {
    /// The user's turn.
    User,
    /// The model's turn.
    Assistant,
    /// Instructions to the model.
    System,
}

impl Role {
    /// The name of the role.
    pub open spec fn name(&self) -> Seq<char> {
        self.chat_role().name()
    }

    /// The role in a chat.
    pub open spec fn chat_role(&self) -> llm::Role {
        match self {
            Role::User => llm::Role::User,
            Role::Assistant => llm::Role::Assistant,
            Role::System => llm::Role::System,
        }
    }

    /// The role in a chat.
    pub fn to_chat_role(&self) -> (r: llm::Role)
        ensures
            r == self.chat_role(),
    {
        match self {
            Role::User => llm::Role::User,
            Role::Assistant => llm::Role::Assistant,
            Role::System => llm::Role::System,
        }
    }

    /// The role under which a turn of a chat is stored; none for a tool turn.
    pub open spec fn stored(role: llm::Role) -> Option<Role> {
        match role {
            llm::Role::User => Some(Role::User),
            llm::Role::Assistant => Some(Role::Assistant),
            llm::Role::System => Some(Role::System),
            llm::Role::Tool => None,
        }
    }

    /// The role under which a turn of a chat is stored; none for a tool turn.
    pub fn from_chat_role(role: llm::Role) -> (r: Option<Role>)
        ensures
            r == Role::stored(role),
    {
        match role {
            llm::Role::User => Some(Role::User),
            llm::Role::Assistant => Some(Role::Assistant),
            llm::Role::System => Some(Role::System),
            llm::Role::Tool => None,
        }
    }
}

/// A stored message.
#[derive(Debug)]
pub struct Message {
    /// Whose turn it is.
    pub role: Role,
    /// The text.
    pub content: String,
}

/// What a [`Message`] holds.
pub struct StoredView {
    /// Whose turn it is.
    pub role: Role,
    /// The text.
    pub content: Seq<char>,
}

impl StoredView {
    /// The message as a turn of a chat.
    pub open spec fn chat(self) -> MessageView {
        MessageView::plain(self.role.chat_role(), self.content)
    }
}

impl View for Message {
    type V = StoredView;

    open spec fn view(&self) -> StoredView {
        StoredView { role: self.role, content: self.content@ }
    }
}

impl Clone for Message {
    fn clone(&self) -> (r: Message)
        ensures
            r == *self,
    {
        Message { role: self.role, content: self.content.clone() }
    }
}

impl Message {
    /// The message as a turn of a chat.
    pub fn to_chat_message(&self) -> (r: ChatMessage)
        ensures
            r@ == self@.chat(),
    {
        ChatMessage::plain(self.role.to_chat_role(), self.content.as_str())
    }
}

/// What a history holds.
pub open spec fn history_view(history: Seq<Message>) -> Seq<StoredView> {
    history.map_values(|message: Message| message@)
}

/// A copy of a history.
pub fn clone_history(history: &Vec<Message>) -> (r: Vec<Message>)
    ensures
        r@ == history@,
{
    let mut copy: Vec<Message> = Vec::new();
    let mut i: usize = 0;
    while i < history.len()
        invariant
            i <= history@.len(),
            copy@ == history@.take(i as int),
        decreases history@.len() - i,
    {
        copy.push(history[i].clone());
        assert(history@.take(i + 1) =~= history@.take(i as int).push(history@[i as int]));
        i += 1;
    }
    assert(history@.take(i as int) =~= history@);
    copy
}

/// Sessions kept in memory. They are lost when the process exits.
pub struct MemorySessionStore {
    sessions: NameMap<Vec<Message>>,
}

/// The histories by session identifier.
pub type SessionsView = Map<Seq<char>, Seq<StoredView>>;

impl View for MemorySessionStore {
    type V = SessionsView;

    closed spec fn view(&self) -> SessionsView {
        self.sessions@.map_values(|history: Vec<Message>| history_view(history@))
    }
}

/// What a store gives back for a session: its history, empty if there is none.
pub open spec fn loaded(sessions: SessionsView, id: Seq<char>) -> Seq<StoredView> {
    if sessions.dom().contains(id) {
        sessions[id]
    } else {
        Seq::empty()
    }
}

impl MemorySessionStore {
    /// Every session has one history.
    pub closed spec fn wf(&self) -> bool {
        self.sessions.wf()
    }

    /// A store without sessions.
    pub fn new() -> (r: Self)
        ensures
            r.wf(),
            r@ == SessionsView::empty(),
    {
        let r = MemorySessionStore { sessions: NameMap::new() };
        assert(r@ =~= Map::empty());
        r
    }

    /// Gives back the history of a session; an unknown session has none.
    pub fn load(&self, session_id: &str) -> (r: Vec<Message>)
        requires
            self.wf(),
        ensures
            history_view(r@) == loaded(self@, session_id@),
    {
        match self.sessions.get(session_id) {
            Some(history) => clone_history(history),
            None => {
                let empty: Vec<Message> = Vec::new();
                assert(history_view(empty@) =~= Seq::empty());
                empty
            },
        }
    }

    /// Keeps the history of a session in place of what was there before.
    pub fn save(&mut self, session_id: &str, history: &Vec<Message>)
        requires
            old(self).wf(),
        ensures
            final(self).wf(),
            final(self)@ == old(self)@.insert(session_id@, history_view(history@)),
    {
        let copy = clone_history(history);
        self.sessions.insert(session_id.to_owned(), copy);
        assert(self@ =~= old(self)@.insert(session_id@, history_view(history@)));
    }

    /// Forgets a session.
    pub fn delete(&mut self, session_id: &str)
        requires
            old(self).wf(),
        ensures
            final(self).wf(),
            final(self)@ == old(self)@.remove(session_id@),
    {
        self.sessions.remove(session_id);
        assert(self@ =~= old(self)@.remove(session_id@));
    }
}

/// What was saved last is loaded, and saving one session leaves the others as
/// they were.
pub proof fn law_load_returns_what_was_saved(
    sessions: SessionsView,
    id: Seq<char>,
    other: Seq<char>,
    history: Seq<StoredView>,
)
    requires
        other != id,
    ensures
        loaded(sessions.insert(id, history), id) == history,
        loaded(sessions.insert(id, history), other) == loaded(sessions, other),
{
}

/// A deleted session is empty, and deleting it leaves the others as they were.
pub proof fn law_deleted_sessions_are_empty(
    sessions: SessionsView,
    id: Seq<char>,
    other: Seq<char>,
)
    requires
        other != id,
    ensures
        loaded(sessions.remove(id), id) == Seq::<StoredView>::empty(),
        loaded(sessions.remove(id), other) == loaded(sessions, other),
{
}

/// A turn that is stored comes back in the role that it was stored in, and every
/// role but a tool's is stored.
pub proof fn law_roles_survive_storage(role: llm::Role, stored: Role)
    ensures
        Role::stored(role) is None <==> role is Tool,
        Role::stored(role) matches Some(kept) ==> kept.chat_role() == role,
        Role::stored(stored.chat_role()) == Some(stored),
        stored.name() == stored.chat_role().name(),
{
}

/// A stored message is replayed as a turn of its text only, in its role.
pub proof fn law_stored_messages_are_replayed_as_they_are(message: Message)
    ensures
        message@.role == message.role,
        message@.content == message.content@,
        message@.chat().content == message.content@,
        message@.chat().tool_calls.len() == 0,
        message@.chat().tool_call_id is None,
        message.role is User ==> message@.chat().role is User,
        message.role is Assistant ==> message@.chat().role is Assistant,
        message.role is System ==> message@.chat().role is System,
{
}

/// A history is shown message by message, in order.
pub proof fn law_histories_are_shown_in_order(history: Seq<Message>, i: int)
    requires
        0 <= i < history.len(),
    ensures
        history_view(history).len() == history.len(),
        history_view(history)[i].role == history[i].role,
        history_view(history)[i].content == history[i].content@,
{
}

} // verus!
