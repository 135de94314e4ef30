//! The in-memory conversation store: a mapping from generated identifier to
//! conversation record. The store supports creating a conversation under a
//! fresh identifier, taking a snapshot of all conversations, and renaming
//! one; it only grows for the life of the process. Each operation is a
//! single atomic transition on the whole store value, so a reader holding a
//! snapshot never sees a partially updated record.

use vstd::prelude::*;

use crate::conversation::Conversation;
use crate::conversation::ConversationView;
use crate::ids::fresh_id;
use crate::ids::parse_id;
use crate::ids::parsed_uuid;

verus! {

/// Failure of a store operation: the conversation identifier is unknown, or
/// its text is malformed.
#[derive(Clone, Copy, PartialEq, Eq, Structural, Debug)]
pub enum StoreError {
    NotFound,
}

/// The record a freshly created conversation holds: the new identifier, an
/// empty title and an empty history.
pub open spec fn empty_conversation_view(id: u128) -> ConversationView {
    ConversationView { id, title: Seq::empty(), history: Seq::empty() }
}

/// `c` with its title replaced and its identifier and history kept.
pub open spec fn retitled(c: ConversationView, title: Seq<char>) -> ConversationView {
    ConversationView { id: c.id, title, history: c.history }
}

/// `m` after the rename of `id` to `title`: the record keyed by `id` keeps
/// its identifier and history and gets the new title.
pub open spec fn renamed(m: Map<u128, ConversationView>, id: u128, title: Seq<char>) -> Map<
    u128,
    ConversationView,
> {
    m.insert(id, retitled(m[id], title))
}

/// No two conversations of the sequence share an identifier.
pub open spec fn distinct_ids(s: Seq<Conversation>) -> bool {
    forall|i: int, j: int| 0 <= i < j < s.len() ==> s[i].id != s[j].id
}

/// Some conversation of the sequence has identifier `id`.
pub open spec fn has_id(s: Seq<Conversation>, id: u128) -> bool {
    exists|i: int| 0 <= i < s.len() && s[i].id == id
}

/// A position of a conversation with identifier `id` in the sequence.
pub open spec fn index_of_id(s: Seq<Conversation>, id: u128) -> int {
    choose|i: int| 0 <= i < s.len() && s[i].id == id
}

/// The mapping from identifier to conversation record that a sequence of
/// conversations represents.
pub open spec fn map_of(s: Seq<Conversation>) -> Map<u128, ConversationView> {
    Map::new(|id: u128| has_id(s, id), |id: u128| s[index_of_id(s, id)]@)
}

proof fn lemma_id_index_unique(s: Seq<Conversation>, i: int, j: int)
    requires
        distinct_ids(s),
        0 <= i < s.len(),
        0 <= j < s.len(),
        s[i].id == s[j].id,
    ensures
        i == j,
{
    if i < j {
        assert(s[i].id != s[j].id);
    } else if j < i {
        assert(s[j].id != s[i].id);
    }
}

proof fn lemma_map_of_entry(s: Seq<Conversation>, i: int)
    requires
        distinct_ids(s),
        0 <= i < s.len(),
    ensures
        map_of(s).contains_key(s[i].id),
        index_of_id(s, s[i].id) == i,
        map_of(s)[s[i].id] == s[i]@,
{
    assert(has_id(s, s[i].id));
    let j = index_of_id(s, s[i].id);
    assert(0 <= j < s.len() && s[j].id == s[i].id);
    lemma_id_index_unique(s, i, j);
}

proof fn lemma_map_of_push(s: Seq<Conversation>, c: Conversation)
    requires
        distinct_ids(s),
        !has_id(s, c.id),
    ensures
        distinct_ids(s.push(c)),
        map_of(s.push(c)) == map_of(s).insert(c.id, c@),
{
    let t = s.push(c);
    assert forall|i: int, j: int| 0 <= i < j < t.len() implies t[i].id != t[j].id by {
        if j < s.len() {
            assert(s[i].id != s[j].id);
        } else if t[i].id == t[j].id {
            assert(0 <= i < s.len() && s[i].id == c.id);
            assert(has_id(s, c.id));
        }
    }
    let m = map_of(s).insert(c.id, c@);
    assert forall|k: u128| map_of(t).contains_key(k) <==> m.contains_key(k) by {
        if has_id(t, k) && k != c.id {
            let i = index_of_id(t, k);
            assert(0 <= i < t.len() && t[i].id == k);
            assert(i < s.len() && s[i].id == k);
            assert(has_id(s, k));
        }
        if has_id(s, k) {
            let i = index_of_id(s, k);
            assert(0 <= i < s.len() && s[i].id == k);
            assert(t[i].id == k);
            assert(has_id(t, k));
        }
        assert(has_id(t, c.id)) by {
            assert(t[s.len() as int].id == c.id);
        }
    }
    assert forall|k: u128| map_of(t).contains_key(k) implies map_of(t)[k] == m[k] by {
        if k == c.id {
            lemma_map_of_entry(t, s.len() as int);
        } else {
            let i = index_of_id(t, k);
            assert(0 <= i < t.len() && t[i].id == k);
            assert(i < s.len() && s[i].id == k);
            lemma_map_of_entry(t, i);
            lemma_map_of_entry(s, i);
        }
    }
    assert(map_of(t) =~= m);
}

proof fn lemma_map_of_update(s: Seq<Conversation>, i: int, c: Conversation)
    requires
        distinct_ids(s),
        0 <= i < s.len(),
        s[i].id == c.id,
    ensures
        distinct_ids(s.update(i, c)),
        map_of(s.update(i, c)) == map_of(s).insert(c.id, c@),
{
    let t = s.update(i, c);
    assert(t.len() == s.len());
    assert forall|j: int| 0 <= j < s.len() implies (#[trigger] t[j]).id == s[j].id by {
        if j != i {
            assert(t[j] == s[j]);
        }
    }
    assert forall|p: int, q: int| 0 <= p < q < t.len() implies t[p].id != t[q].id by {
        assert(s[p].id != s[q].id);
    }
    let m = map_of(s).insert(c.id, c@);
    assert forall|k: u128| map_of(t).contains_key(k) <==> m.contains_key(k) by {
        if has_id(t, k) {
            let p = index_of_id(t, k);
            assert(0 <= p < t.len() && t[p].id == k);
            assert(s[p].id == k);
            assert(has_id(s, k));
        }
        if has_id(s, k) {
            let p = index_of_id(s, k);
            assert(0 <= p < s.len() && s[p].id == k);
            assert(t[p].id == k);
            assert(has_id(t, k));
        }
    }
    assert forall|k: u128| map_of(t).contains_key(k) implies map_of(t)[k] == m[k] by {
        if k == c.id {
            lemma_map_of_entry(t, i);
        } else {
            let p = index_of_id(t, k);
            assert(0 <= p < t.len() && t[p].id == k);
            assert(s[p].id == k);
            assert(p != i);
            lemma_map_of_entry(t, p);
            lemma_map_of_entry(s, p);
            assert(t[p] == s[p]);
        }
    }
    assert(map_of(t) =~= m);
}

/// The store of all active conversations of the process.
pub struct ConversationStore {
    convs: Vec<Conversation>,
}

impl View for ConversationStore {
    type V = Map<u128, ConversationView>;

    closed spec fn view(&self) -> Map<u128, ConversationView> {
        map_of(self.convs@)
    }
}

impl ConversationStore {
    /// Well-formed: no two stored conversations share an identifier, so each
    /// identifier keys exactly one record.
    pub closed spec fn wf(&self) -> bool {
        distinct_ids(self.convs@)
    }

    /// An empty store.
    pub fn new() -> (s: Self)
        ensures
            s.wf(),
            s@ == Map::<u128, ConversationView>::empty(),
    {
        let s = ConversationStore { convs: Vec::new() };
        proof {
            assert(s@ =~= Map::<u128, ConversationView>::empty());
        }
        s
    }

    /// Every record of a well-formed store carries the identifier it is
    /// keyed under.
    pub proof fn lemma_key_matches_id(&self)
        requires
            self.wf(),
        ensures
            forall|k: u128| self@.contains_key(k) ==> (#[trigger] self@[k]).id == k,
    {
        assert forall|k: u128| self@.contains_key(k) implies (#[trigger] self@[k]).id == k by {
            let i = index_of_id(self.convs@, k);
            assert(0 <= i < self.convs@.len() && self.convs@[i].id == k);
        }
    }

    /// Inserts a fresh conversation record under `id` and returns a copy of
    /// it. An identifier that is already present — never the case for the
    /// collision-free generated identifiers — has its record replaced.
    pub fn create_with_id(&mut self, id: u128) -> (c: Conversation)
        requires
            old(self).wf(),
        ensures
            final(self).wf(),
            c.id == id,
            c@ == empty_conversation_view(id),
            final(self)@ == old(self)@.insert(id, empty_conversation_view(id)),
    {
        let fresh = Conversation { id, title: String::new(), history: Vec::new() };
        proof {
            assert(fresh@ =~= empty_conversation_view(id));
        }
        let copy = fresh.clone();
        let ghost gf = fresh;
        match self.find_index(id) {
            Some(i) => {
                self.convs[i] = fresh;
                proof {
                    lemma_map_of_update(old(self).convs@, i as int, gf);
                }
            },
            None => {
                self.convs.push(fresh);
                proof {
                    lemma_map_of_push(old(self).convs@, gf);
                }
            },
        }
        copy
    }

    /// Creates a conversation under a freshly generated identifier and
    /// returns a copy of the new record: empty title, empty history.
    pub fn new_conversation(&mut self) -> (c: Conversation)
        requires
            old(self).wf(),
        ensures
            final(self).wf(),
            c@ == empty_conversation_view(c.id),
            final(self)@ == old(self)@.insert(c.id, c@),
    {
        let id = fresh_id();
        self.create_with_id(id)
    }

    fn find_index(&self, id: u128) -> (r: Option<usize>)
        ensures
            match r {
                Some(i) => (i < self.convs@.len() && self.convs@[i as int].id == id),
                None => !has_id(self.convs@, id),
            },
    {
        let mut i: usize = 0;
        while i < self.convs.len()
            invariant
                i <= self.convs@.len(),
                forall|j: int| 0 <= j < i ==> (#[trigger] self.convs@[j]).id != id,
            decreases self.convs@.len() - i,
        {
            if self.convs[i].id == id {
                return Some(i);
            }
            i = i + 1;
        }
        None
    }

    /// Sets the title of the conversation with identifier `id`. Fails with
    /// `NotFound`, leaving the store unchanged, exactly when no conversation
    /// has that identifier; on success the record keeps its identifier and
    /// history and is replaced in one step, so no intermediate state exists.
    pub fn set_title_by_id(&mut self, id: u128, new_title: &str) -> (r: Result<
        (),
        StoreError,
    >)
        requires
            old(self).wf(),
        ensures
            final(self).wf(),
            old(self)@.contains_key(id) ==> (r == Ok::<(), StoreError>(()) && final(self)@
                == renamed(old(self)@, id, new_title@)),
            !old(self)@.contains_key(id) ==> (r == Err::<(), StoreError>(StoreError::NotFound)
                && final(self)@ == old(self)@),
    {
        match self.find_index(id) {
            Some(i) => {
                let mut c = self.convs[i].clone();
                c.title = String::from_str(new_title);
                let ghost gc = c;
                proof {
                    lemma_map_of_entry(self.convs@, i as int);
                    assert(gc@ =~= retitled(self@[id], new_title@));
                }
                self.convs[i] = c;
                proof {
                    lemma_map_of_update(old(self).convs@, i as int, gc);
                }
                Ok(())
            },
            None => {
                Err(StoreError::NotFound)
            },
        }
    }

    /// Renames the conversation whose identifier has the given text,
    /// returning the parsed identifier on success so that the caller can
    /// notify observers of the change. Fails with `NotFound`, leaving the
    /// store unchanged, exactly when the text is not a well-formed
    /// identifier or no conversation has that identifier.
    pub fn set_conversation_title(&mut self, id_text: &str, new_title: &str) -> (r: Result<
        u128,
        StoreError,
    >)
        requires
            old(self).wf(),
        ensures
            final(self).wf(),
            match parsed_uuid(id_text@) {
                Some(id) => {
                    &&& old(self)@.contains_key(id) ==> (r == Ok::<u128, StoreError>(id)
                        && final(self)@ == renamed(old(self)@, id, new_title@))
                    &&& !old(self)@.contains_key(id) ==> (r == Err::<u128, StoreError>(
                        StoreError::NotFound,
                    ) && final(self)@ == old(self)@)
                },
                None => r == Err::<u128, StoreError>(StoreError::NotFound)
                    && final(self)@ == old(self)@,
            },
    {
        match parse_id(id_text) {
            Some(id) => {
                match self.set_title_by_id(id, new_title) {
                    Ok(_) => Ok(id),
                    Err(e) => Err(e),
                }
            },
            None => Err(StoreError::NotFound),
        }
    }

    /// A point-in-time snapshot of every conversation in the store: the
    /// returned records carry pairwise-distinct identifiers and represent
    /// exactly the store's mapping.
    pub fn list_conversations(&self) -> (r: Vec<Conversation>)
        requires
            self.wf(),
        ensures
            distinct_ids(r@),
            map_of(r@) == self@,
            forall|j: int| 0 <= j < r@.len() ==> self@.contains_key((#[trigger] r@[j]).id)
                && self@[r@[j].id] == r@[j]@,
            forall|id: u128| self@.contains_key(id) ==> #[trigger] has_id(r@, id),
    {
        let mut r: Vec<Conversation> = Vec::new();
        let mut i: usize = 0;
        while i < self.convs.len()
            invariant
                i <= self.convs@.len(),
                r@.len() == i,
                forall|j: int| 0 <= j < i ==> (#[trigger] r@[j]).id == self.convs@[j].id && r@[j]@
                    == self.convs@[j]@,
            decreases self.convs@.len() - i,
        {
            r.push(self.convs[i].clone());
            i = i + 1;
        }
        proof {
            lemma_map_of_pointwise(self.convs@, r@);
            assert forall|j: int| 0 <= j < r@.len() implies self@.contains_key(
                (#[trigger] r@[j]).id,
            ) && self@[r@[j].id] == r@[j]@ by {
                lemma_map_of_entry(self.convs@, j);
            }
        }
        r
    }
}

proof fn lemma_map_of_pointwise(s1: Seq<Conversation>, s2: Seq<Conversation>)
    requires
        distinct_ids(s1),
        s1.len() == s2.len(),
        forall|j: int| 0 <= j < s1.len() ==> (#[trigger] s2[j]).id == s1[j].id && s2[j]@ == s1[j]@,
    ensures
        distinct_ids(s2),
        map_of(s2) == map_of(s1),
{
    assert forall|k: u128| has_id(s2, k) <==> has_id(s1, k) by {
        if has_id(s2, k) {
            let i = index_of_id(s2, k);
            assert(0 <= i < s2.len() && s2[i].id == k);
            assert(s1[i].id == k);
            assert(has_id(s1, k));
        }
        if has_id(s1, k) {
            let i = index_of_id(s1, k);
            assert(0 <= i < s1.len() && s1[i].id == k);
            assert(s2[i].id == k);
            assert(has_id(s2, k));
        }
    }
    assert forall|k: u128| map_of(s2).contains_key(k) implies map_of(s2)[k] == map_of(s1)[k] by {
        let i = index_of_id(s1, k);
        assert(0 <= i < s1.len() && s1[i].id == k);
        lemma_map_of_entry(s1, i);
        lemma_map_of_entry(s2, i);
    }
    assert(map_of(s2) =~= map_of(s1));
}

} // verus!
