//! The process-wide store: one [`ConversationStore`] guarded by a single
//! reader/writer lock. Writers are serialized, readers share, and every
//! operation is one acquire–operate–release round, so a reader never
//! observes a partially updated conversation: each value the lock hands
//! out is a whole, well-formed store. The lock is never held across a
//! network call; the greeting operation does not touch the store at all.

use vstd::prelude::*;
use vstd::rwlock::RwLock;

use crate::conversation::Conversation;
use crate::ids::parsed_uuid;
use crate::store::distinct_ids;
use crate::store::empty_conversation_view;
use crate::store::ConversationStore;
use crate::store::StoreError;

verus! {

/// The shared conversation store of the process.
pub struct SharedStore {
    lock: RwLock<ConversationStore, spec_fn(ConversationStore) -> bool>,
}

impl SharedStore {
    /// The lock holds exactly the well-formed stores, so every observer of
    /// the shared store sees a well-formed one.
    pub closed spec fn wf(&self) -> bool {
        forall|s: ConversationStore| #[trigger] self.lock.inv(s) <==> s.wf()
    }

    /// A shared store with no conversations.
    pub fn new() -> (s: Self)
        ensures
            s.wf(),
    {
        let store = ConversationStore::new();
        let lock = RwLock::new(store, Ghost(|s: ConversationStore| s.wf()));
        SharedStore { lock }
    }

    /// Creates a conversation under the exclusive lock and returns a copy
    /// of the new record: a fresh identifier, an empty title, an empty
    /// history.
    pub fn new_conversation(&self) -> (c: Conversation)
        requires
            self.wf(),
        ensures
            c@ == empty_conversation_view(c.id),
    {
        let (mut store, handle) = self.lock.acquire_write();
        let c = store.new_conversation();
        handle.release_write(store);
        c
    }

    /// Takes a consistent point-in-time snapshot of all conversations under
    /// the shared lock: records of one store value, with pairwise-distinct
    /// identifiers.
    pub fn list_conversations(&self) -> (r: Vec<Conversation>)
        requires
            self.wf(),
        ensures
            distinct_ids(r@),
    {
        let handle = self.lock.acquire_read();
        let r = handle.borrow().list_conversations();
        handle.release_read();
        r
    }

    /// Renames a conversation under the exclusive lock. Success returns the
    /// identifier the text denotes; failure reports an unknown or malformed
    /// identifier and leaves the store as it was.
    pub fn set_conversation_title(&self, id_text: &str, new_title: &str) -> (r: Result<
        u128,
        StoreError,
    >)
        requires
            self.wf(),
        ensures
            match r {
                Ok(id) => parsed_uuid(id_text@) == Some(id),
                Err(e) => e == StoreError::NotFound,
            },
    {
        let (mut store, handle) = self.lock.acquire_write();
        let r = store.set_conversation_title(id_text, new_title);
        handle.release_write(store);
        r
    }
}

} // verus!
