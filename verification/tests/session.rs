use mra::session::{MemorySessionStore, Message, Role};

fn message(content: &str) -> Message {
    Message { role: Role::User, content: content.into() }
}

#[test]
fn load_returns_what_was_saved() {
    let mut store = MemorySessionStore::new();
    assert!(store.load("s1").is_empty());
    store.save("s1", &vec![message("a")]);
    store.save("s2", &vec![message("b"), message("c")]);
    store.save("s1", &vec![message("a"), message("d")]);
    let contents: Vec<String> = store.load("s1").into_iter().map(|m| m.content).collect();
    assert_eq!(contents, ["a", "d"]);
    assert_eq!(store.load("s2").len(), 2);
}

#[test]
fn deleted_sessions_are_empty() {
    let mut store = MemorySessionStore::new();
    store.save("s1", &vec![message("a")]);
    store.save("s2", &vec![message("b")]);
    store.delete("s1");
    store.delete("unknown");
    assert!(store.load("s1").is_empty());
    assert_eq!(store.load("s2").len(), 1);
}
