use std::collections::HashMap;

use mra::ids::{AgentId, TaskId};

#[test]
fn agent_id_new_generates_unique_ids() {
    let a = AgentId::new();
    let b = AgentId::new();
    assert_ne!(a, b);
}

#[test]
fn task_id_new_generates_unique_ids() {
    let a = TaskId::new();
    let b = TaskId::new();
    assert_ne!(a, b);
}

#[test]
fn agent_id_display_shows_uuid() {
    let id = AgentId::new();
    let s = id.to_string();
    assert!(!s.is_empty());
    // Display should be just the UUID, not wrapped in "AgentId(...)"
    assert!(!s.contains("AgentId"));
}

#[test]
fn agent_id_clone_preserves_equality() {
    let id = AgentId::new();
    let cloned = id;
    assert_eq!(id, cloned);
}

#[test]
fn agent_id_debug_contains_uuid() {
    let id = AgentId::new();
    let debug = format!("{id:?}");
    assert!(debug.contains("AgentId"));
}

#[test]
fn ids_serialize_roundtrip() {
    let agent_id = AgentId::new();
    let json = serde_json::to_string(&agent_id.to_string()).unwrap();
    let text: String = serde_json::from_str(&json).unwrap();
    let back = AgentId::parse(&text).unwrap();
    assert_eq!(agent_id, back);

    let task_id = TaskId::new();
    let json = serde_json::to_string(&task_id.to_string()).unwrap();
    let text: String = serde_json::from_str(&json).unwrap();
    let back = TaskId::parse(&text).unwrap();
    assert_eq!(task_id, back);
}

#[test]
fn ids_usable_as_hash_keys() {
    let mut map = HashMap::new();
    let id = AgentId::new();
    map.insert(id, "test");
    assert_eq!(map[&id], "test");
}

#[test]
fn id_text_is_hyphenated_hexadecimal() {
    let id = AgentId { value: 0x0000_0001_0002_0003_0004_0000_0000_00ff };
    assert_eq!(id.to_string(), "00000001-0002-0003-0004-0000000000ff");
    assert_eq!(AgentId::parse("00000001-0002-0003-0004-0000000000FF"), Some(id));
    assert_eq!(AgentId::parse("not an id"), None);
    assert_eq!(TaskId::parse(""), None);
}

#[test]
fn random_ids_carry_their_version() {
    let text = TaskId::new().to_string();
    assert_eq!(text.as_bytes()[14], b'4');
    assert!(b"89ab".contains(&text.as_bytes()[19]));
}
