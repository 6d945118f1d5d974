use optimistic_verifier::{Empty, NetworkMessage};

#[test]
fn default_message_is_empty() {
    let m = NetworkMessage::default();
    assert!(m.message.is_empty());
    assert!(m.message_type.is_empty());
    assert_eq!(Empty {}, Empty {});
}

#[test]
fn message_holds_payload_and_kind() {
    let m = NetworkMessage { message: vec![1, 2, 3], message_type: "execute".to_string() };
    assert_eq!(m.clone(), m);
    assert_eq!(m.message.len(), 3);
}
