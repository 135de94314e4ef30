//! Conversation records: a message with a role, and a conversation with an
//! identifier, a title and an ordered history of messages.

use vstd::prelude::*;

use crate::ids::id_to_text;
use crate::ids::parsed_uuid;
use crate::ids::uuid_text;

verus! {

/// Who produced a message of a conversation.
#[derive(Clone, Copy, PartialEq, Eq, Structural, Debug)]
pub enum Role {
    User,
    Assistant,
}

/// One exchanged message: its author and its text.
#[derive(Debug)]
pub struct Message {
    pub role: Role,
    pub content: String,
}

/// The mathematical value of a [`Message`].
#[verifier::ext_equal]
pub struct MessageView {
    pub role: Role,
    pub content: Seq<char>,
}

impl View for Message {
    type V = MessageView;

    open spec fn view(&self) -> MessageView {
        MessageView { role: self.role, content: self.content@ }
    }
}

impl Clone for Message {
    fn clone(&self) -> (r: Self)
        ensures
            r@ == self@,
    {
        Message { role: self.role, content: self.content.clone() }
    }
}

/// The mathematical values of a sequence of messages.
pub open spec fn message_views(s: Seq<Message>) -> Seq<MessageView> {
    s.map_values(|m: Message| m@)
}

/// One chat session: an identifier generated at creation and immutable
/// thereafter, a mutable display title, and the ordered transcript of
/// exchanged messages.
#[derive(Debug)]
pub struct Conversation {
    pub id: u128,
    pub title: String,
    pub history: Vec<Message>,
}

/// The mathematical value of a [`Conversation`].
#[verifier::ext_equal]
pub struct ConversationView {
    pub id: u128,
    pub title: Seq<char>,
    pub history: Seq<MessageView>,
}

impl View for Conversation {
    type V = ConversationView;

    open spec fn view(&self) -> ConversationView {
        ConversationView {
            id: self.id,
            title: self.title@,
            history: message_views(self.history@),
        }
    }
}

impl Clone for Conversation {
    fn clone(&self) -> (r: Self)
        ensures
            r.id == self.id,
            r@ == self@,
    {
        let mut history: Vec<Message> = Vec::new();
        let mut i: usize = 0;
        while i < self.history.len()
            invariant
                i <= self.history.len(),
                history@.len() == i,
                forall|j: int| 0 <= j < i ==> (#[trigger] history@[j])@ == self.history@[j]@,
            decreases self.history.len() - i,
        {
            history.push(self.history[i].clone());
            i = i + 1;
        }
        proof {
            assert(message_views(history@) =~= message_views(self.history@));
        }
        Conversation { id: self.id, title: self.title.clone(), history }
    }
}

impl Conversation {
    /// The canonical text of this conversation's identifier; handing it to
    /// the rename operation names this conversation again.
    pub fn id_text(&self) -> (r: String)
        ensures
            r@ == uuid_text(self.id),
            parsed_uuid(r@) == Some(self.id),
    {
        id_to_text(self.id)
    }
}

} // verus!
