use clipboard_caoguo::protocol::{ClipSyncMessage, ClipType, HeartbeatMessage};

#[test]
fn test_calculate_hash() {
    let hash1 = ClipSyncMessage::calculate_hash("hello world");
    let hash2 = ClipSyncMessage::calculate_hash("hello world");
    let hash3 = ClipSyncMessage::calculate_hash("hello rust");

    assert_eq!(hash1, hash2);
    assert_ne!(hash1, hash3);
    assert_eq!(hash1.len(), 64);
}

#[test]
fn test_clip_type_from_str() {
    assert_eq!(ClipType::from_str("text"), ClipType::Text);
    assert_eq!(ClipType::from_str("TEXT"), ClipType::Text);
    assert_eq!(ClipType::from_str("image"), ClipType::Image);
    assert_eq!(ClipType::from_str("file"), ClipType::File);
    assert_eq!(ClipType::from_str("unknown"), ClipType::Text);
}

#[test]
fn test_verify_hash() {
    let mut msg = ClipSyncMessage::new(
        ClipType::Text,
        "original content".to_string(),
        "device-123".to_string(),
    );

    assert!(msg.verify_hash());

    msg.content = "modified content".to_string();
    assert!(!msg.verify_hash());
}

#[test]
fn test_file_message() {
    let msg = ClipSyncMessage::new_file(
        "file content".to_string(),
        "test.txt".to_string(),
        12,
        "device-123".to_string(),
    );

    assert_eq!(msg.msg_type, ClipType::File);
    assert_eq!(msg.file_name, Some("test.txt".to_string()));
    assert_eq!(msg.file_size, Some(12));
}

#[test]
fn test_heartbeat_message() {
    let heartbeat = HeartbeatMessage::new(
        "device-123".to_string(),
        "My Device".to_string(),
    );

    assert_eq!(heartbeat.device_id, "device-123");
    assert_eq!(heartbeat.device_name, "My Device");
    assert_eq!(heartbeat.status, "online");
}

#[test]
fn known_sha256_of_hello_world() {
    assert_eq!(
        ClipSyncMessage::calculate_hash("hello world"),
        "b94d27b9934d3e08a52e52d7da7dabfac484efe37a5380ee9088f7ace2efcde9"
    );
}

#[test]
fn clip_type_names_round_trip() {
    for t in [ClipType::Text, ClipType::Image, ClipType::File] {
        assert_eq!(ClipType::from_str(t.as_str()), t);
    }
    assert_eq!(ClipType::Image.as_str(), "image");
    assert_eq!(ClipType::from_str("ImAgE"), ClipType::Image);
    assert_eq!(ClipType::from_lowercase("FILE"), ClipType::Text);
}

#[test]
fn new_message_fields_and_size() {
    let msg = ClipSyncMessage::new(ClipType::Text, "héllo".to_string(), "dev".to_string());
    assert_eq!(msg.content_size(), 6);
    assert_eq!(msg.file_name, None);
    assert_eq!(msg.file_size, None);
    assert_eq!(msg.hash, ClipSyncMessage::calculate_hash("héllo"));
    assert!(msg.timestamp > 0);
}

#[test]
fn expiry_at_given_clock() {
    let mut msg = ClipSyncMessage::new(ClipType::Text, "x".to_string(), "dev".to_string());
    msg.timestamp = 1_000;
    assert!(!msg.is_expired_at(1_000 + 300_000, None));
    assert!(msg.is_expired_at(1_000 + 300_001, None));
    assert!(msg.is_expired_at(1_011, Some(10)));
    assert!(!msg.is_expired_at(1_010, Some(10)));
    msg.timestamp = i64::MIN;
    assert!(msg.is_expired_at(i64::MAX, None));
    let fresh = ClipSyncMessage::new(ClipType::Text, "y".to_string(), "dev".to_string());
    assert!(!fresh.is_expired(None));
}

#[test]
fn clone_with_new_timestamp_keeps_content() {
    let mut msg = ClipSyncMessage::new_file("abc".to_string(), "a.txt".to_string(), 3, "dev".to_string());
    msg.timestamp = 5;
    let copy = msg.clone_with_new_timestamp();
    assert_eq!(copy.content, "abc");
    assert_eq!(copy.hash, msg.hash);
    assert_eq!(copy.file_name, Some("a.txt".to_string()));
    assert_eq!(copy.file_size, Some(3));
    assert!(copy.timestamp > 5);
    assert!(copy.verify_hash());
}

#[test]
fn clip_type_names_parse_back_in_any_case() {
    for t in [ClipType::Text, ClipType::Image, ClipType::File] {
        assert_eq!(ClipType::from_str(t.as_str()), t);
        assert_eq!(ClipType::from_str(&t.as_str().to_uppercase()), t);
    }
    assert_eq!(ClipType::from_str("ImAgE"), ClipType::Image);
    assert_eq!(ClipType::from_str("FILE"), ClipType::File);
}
