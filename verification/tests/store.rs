use ehyaioess::Conversation;
use ehyaioess::ConversationStore;
use ehyaioess::Message;
use ehyaioess::Role;
use ehyaioess::StoreError;
use uuid::Uuid;

#[test]
fn create_with_id_gives_fresh_record() {
    let mut s = ConversationStore::new();
    let c = s.create_with_id(7);
    assert_eq!(c.id, 7);
    assert_eq!(c.title, "");
    assert!(c.history.is_empty());
}

#[test]
fn created_conversation_is_listed() {
    let mut s = ConversationStore::new();
    let c = s.create_with_id(42);
    let listed = s.list_conversations();
    assert_eq!(listed.len(), 1);
    assert_eq!(listed[0].id, c.id);
    assert_eq!(listed[0].title, "");
    assert!(listed[0].history.is_empty());
}

#[test]
fn new_conversation_ids_unique_and_listed() {
    let mut s = ConversationStore::new();
    let mut ids: Vec<u128> = Vec::new();
    for _ in 0..5 {
        ids.push(s.new_conversation().id);
    }
    for i in 0..ids.len() {
        for j in (i + 1)..ids.len() {
            assert_ne!(ids[i], ids[j]);
        }
    }
    let listed = s.list_conversations();
    assert_eq!(listed.len(), 5);
    for id in ids {
        assert!(listed.iter().any(|c| c.id == id));
    }
}

#[test]
fn rename_scenario_updates_title_and_keeps_history() {
    let mut s = ConversationStore::new();
    let c = s.new_conversation();
    assert_eq!(c.title, "");
    assert!(c.history.is_empty());
    let text = c.id_text();
    let renamed = s.set_conversation_title(&text, "Trip planning");
    assert_eq!(renamed, Ok(c.id));
    let listed = s.list_conversations();
    assert_eq!(listed.len(), 1);
    assert_eq!(listed[0].id, c.id);
    assert_eq!(listed[0].title, "Trip planning");
    assert!(listed[0].history.is_empty());
}

#[test]
fn rename_malformed_id_fails_and_leaves_store_unchanged() {
    let mut s = ConversationStore::new();
    s.create_with_id(9);
    let r = s.set_conversation_title("not-a-uuid", "x");
    assert_eq!(r, Err(StoreError::NotFound));
    let listed = s.list_conversations();
    assert_eq!(listed.len(), 1);
    assert_eq!(listed[0].id, 9);
    assert_eq!(listed[0].title, "");
    assert!(listed[0].history.is_empty());
}

#[test]
fn rename_unknown_id_fails() {
    let mut s = ConversationStore::new();
    let r = s.set_conversation_title("67e55044-10b1-426f-9247-bb680e5fe0c8", "x");
    assert_eq!(r, Err(StoreError::NotFound));
    assert!(s.list_conversations().is_empty());
}

#[test]
fn rename_by_known_hyphenated_text() {
    let mut s = ConversationStore::new();
    let id: u128 = 0x67e5504410b1426f9247bb680e5fe0c8;
    s.create_with_id(id);
    let r = s.set_conversation_title("67e55044-10b1-426f-9247-bb680e5fe0c8", "named");
    assert_eq!(r, Ok(id));
    let listed = s.list_conversations();
    assert_eq!(listed.len(), 1);
    assert_eq!(listed[0].title, "named");
}

#[test]
fn id_text_is_hyphenated_form() {
    let mut s = ConversationStore::new();
    let c = s.create_with_id(0x67e5504410b1426f9247bb680e5fe0c8);
    assert_eq!(c.id_text(), "67e55044-10b1-426f-9247-bb680e5fe0c8");
}

#[test]
fn id_text_round_trips_through_uuid_parse() {
    let mut s = ConversationStore::new();
    let c = s.new_conversation();
    let parsed = Uuid::parse_str(&c.id_text()).unwrap();
    assert_eq!(parsed.as_u128(), c.id);
}

#[test]
fn set_title_by_id_success_and_not_found() {
    let mut s = ConversationStore::new();
    s.create_with_id(1);
    assert_eq!(s.set_title_by_id(1, "first"), Ok(()));
    assert_eq!(s.set_title_by_id(2, "none"), Err(StoreError::NotFound));
    let listed = s.list_conversations();
    assert_eq!(listed.len(), 1);
    assert_eq!(listed[0].title, "first");
}

#[test]
fn rename_leaves_other_conversations_unchanged() {
    let mut s = ConversationStore::new();
    s.create_with_id(1);
    s.create_with_id(2);
    assert_eq!(s.set_title_by_id(2, "second"), Ok(()));
    let listed = s.list_conversations();
    assert_eq!(listed.len(), 2);
    let one = listed.iter().find(|c| c.id == 1).unwrap();
    let two = listed.iter().find(|c| c.id == 2).unwrap();
    assert_eq!(one.title, "");
    assert_eq!(two.title, "second");
}

#[test]
fn rename_twice_keeps_last_title() {
    let mut s = ConversationStore::new();
    s.create_with_id(4);
    assert_eq!(s.set_title_by_id(4, "one"), Ok(()));
    assert_eq!(s.set_title_by_id(4, "two"), Ok(()));
    assert_eq!(s.list_conversations()[0].title, "two");
}

#[test]
fn rename_to_empty_title() {
    let mut s = ConversationStore::new();
    s.create_with_id(4);
    assert_eq!(s.set_title_by_id(4, "named"), Ok(()));
    assert_eq!(s.set_title_by_id(4, ""), Ok(()));
    assert_eq!(s.list_conversations()[0].title, "");
}

#[test]
fn create_existing_id_replaces_record() {
    let mut s = ConversationStore::new();
    s.create_with_id(5);
    assert_eq!(s.set_title_by_id(5, "named"), Ok(()));
    let c = s.create_with_id(5);
    assert_eq!(c.title, "");
    let listed = s.list_conversations();
    assert_eq!(listed.len(), 1);
    assert_eq!(listed[0].title, "");
}

#[test]
fn conversation_clone_preserves_fields() {
    let c = Conversation {
        id: 3,
        title: String::from("outing"),
        history: vec![Message { role: Role::User, content: String::from("hi") }],
    };
    let d = c.clone();
    assert_eq!(d.id, 3);
    assert_eq!(d.title, "outing");
    assert_eq!(d.history.len(), 1);
    assert!(matches!(d.history[0].role, Role::User));
    assert_eq!(d.history[0].content, "hi");
}
