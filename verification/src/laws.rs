//! Properties of the store's operations, stated and proved over the
//! mathematical model that the operations' contracts use: the mapping from
//! identifier to conversation record.

use vstd::prelude::*;

use crate::conversation::ConversationView;
use crate::store::empty_conversation_view;
use crate::store::renamed;

verus! {

/// The model of a sequence of create operations: each inserts a fresh
/// record under its identifier, as `ConversationStore::new_conversation`
/// and `ConversationStore::create_with_id` ensure.
pub open spec fn created_all(m: Map<u128, ConversationView>, ids: Seq<u128>) -> Map<
    u128,
    ConversationView,
>
    decreases ids.len(),
{
    if ids.len() == 0 {
        m
    } else {
        created_all(m, ids.drop_last()).insert(
            ids.last(),
            empty_conversation_view(ids.last()),
        )
    }
}

/// Law: in any sequence of create operations whose generated identifiers
/// are pairwise distinct — identifier generation is assumed collision-free —
/// every created identifier is present afterwards, keyed to the fresh
/// record it was created with.
pub proof fn lemma_created_ids_present(m: Map<u128, ConversationView>, ids: Seq<u128>)
    requires
        forall|i: int, j: int| 0 <= i < j < ids.len() ==> ids[i] != ids[j],
    ensures
        forall|i: int|
            0 <= i < ids.len() ==> #[trigger] created_all(m, ids).contains_key(ids[i])
                && created_all(m, ids)[ids[i]] == empty_conversation_view(ids[i]),
    decreases ids.len(),
{
    if ids.len() > 0 {
        let prefix = ids.drop_last();
        lemma_created_ids_present(m, prefix);
        assert forall|i: int|
            0 <= i < ids.len() implies #[trigger] created_all(m, ids).contains_key(ids[i])
            && created_all(m, ids)[ids[i]] == empty_conversation_view(ids[i]) by {
            if i < ids.len() - 1 {
                assert(prefix[i] == ids[i]);
                assert(created_all(m, prefix).contains_key(prefix[i]));
                assert(ids[i] != ids.last());
            }
        }
    }
}

/// Law: renaming an existing conversation updates exactly its title. The
/// record keeps its identifier and history, every other conversation is
/// unchanged, and no conversation appears or disappears. A subsequent
/// snapshot therefore shows the new title and the old history.
pub proof fn lemma_rename_updates_title_only(
    m: Map<u128, ConversationView>,
    id: u128,
    title: Seq<char>,
)
    requires
        m.contains_key(id),
    ensures
        renamed(m, id, title).dom() == m.dom(),
        renamed(m, id, title)[id].title == title,
        renamed(m, id, title)[id].history == m[id].history,
        renamed(m, id, title)[id].id == m[id].id,
        forall|k: u128| m.contains_key(k) && k != id ==> renamed(m, id, title)[k] == m[k],
{
    assert(renamed(m, id, title).dom() =~= m.dom());
}

} // verus!
