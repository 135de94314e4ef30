use ehyaioess::SharedStore;
use ehyaioess::StoreError;

#[test]
fn shared_store_create_list_rename() {
    let s = SharedStore::new();
    let c = s.new_conversation();
    assert_eq!(c.title, "");
    assert!(c.history.is_empty());
    let listed = s.list_conversations();
    assert_eq!(listed.len(), 1);
    assert_eq!(listed[0].id, c.id);
    assert_eq!(s.set_conversation_title(&c.id_text(), "Trip planning"), Ok(c.id));
    let listed = s.list_conversations();
    assert_eq!(listed.len(), 1);
    assert_eq!(listed[0].title, "Trip planning");
    assert!(listed[0].history.is_empty());
}

#[test]
fn shared_store_rename_malformed_fails() {
    let s = SharedStore::new();
    assert_eq!(
        s.set_conversation_title("not-a-uuid", "x"),
        Err(StoreError::NotFound)
    );
    assert!(s.list_conversations().is_empty());
}

#[test]
fn shared_store_ids_unique() {
    let s = SharedStore::new();
    let a = s.new_conversation();
    let b = s.new_conversation();
    assert_ne!(a.id, b.id);
    assert_eq!(s.list_conversations().len(), 2);
}
