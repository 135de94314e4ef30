//! Conversation state for a chat-assistant application.
//!
//! The library keeps every active conversation of a session in an in-memory
//! store: a mapping from a generated 128-bit identifier to a conversation
//! record (identifier, title, ordered message history). The store supports
//! creating a conversation, listing a snapshot of all conversations, and
//! renaming one; a small helper builds the one-off greeting prompt that is
//! sent to the remote language-model service. Identifier generation and the
//! textual identifier format come from the `uuid` crate behind trusted
//! wrappers; everything else is verified.

pub mod conversation;
pub mod greeting;
pub mod ids;
pub mod laws;
pub mod shared;
pub mod store;

pub use conversation::Conversation;
pub use conversation::ConversationView;
pub use conversation::Message;
pub use conversation::MessageView;
pub use conversation::Role;
pub use greeting::greeting_prompt;
pub use shared::SharedStore;
pub use store::ConversationStore;
pub use store::StoreError;
