use clipboard_caoguo::clipboard::{
    clipboard_image_file, decode_image_content, image_echo_key, image_sync_message, new_image_path,
    plan_remote_storage, sync_targets, text_sync_requests, ClipboardMonitor, ClipboardSyncManager, ImageStep,
    RemoteStorage, TextCheck, TickPlan,
};
use clipboard_caoguo::protocol::{ClipSyncMessage, ClipType};
use clipboard_caoguo::trusted::{TrustedDevice, TrustedDevicesManager};
use clipboard_caoguo::NetworkDevice;

fn device(id: &str, name: &str, host: &str) -> NetworkDevice {
    NetworkDevice {
        device_id: id.to_string(),
        name: name.to_string(),
        hostname: host.to_string(),
        ip: "10.0.0.2".to_string(),
        port: 9527,
        last_seen: "t".to_string(),
    }
}

#[test]
fn hash_cache_keeps_last_hundred() {
    let mut m = ClipboardSyncManager::new("me".to_string());
    assert_eq!(m.device_id(), "me");
    for i in 0..150 {
        m.add_hash_to_cache(format!("h{}", i));
    }
    assert!(!m.is_hash_cached("h49"));
    assert!(m.is_hash_cached("h50"));
    assert!(m.is_hash_cached("h149"));
    m.clear_hash_cache();
    assert!(!m.is_hash_cached("h149"));
}

#[test]
fn remote_message_checks_in_order() {
    let mut m = ClipboardSyncManager::new("me".to_string());
    let mut trusted = TrustedDevicesManager::new();
    let mut msg = ClipSyncMessage::new(ClipType::Text, "hello".to_string(), "peer".to_string());
    assert_eq!(m.accept_remote_message(&msg, &trusted), Err("Device not trusted".to_string()));
    trusted.add_device("peer".to_string(), "Peer".to_string());
    assert_eq!(m.accept_remote_message(&msg, &trusted), Ok(()));
    assert!(m.is_hash_cached(&msg.hash));
    assert!(m.skip_tick_after_remote_write());
    assert!(!m.skip_tick_after_remote_write());
    assert_eq!(m.accept_remote_message(&msg, &trusted), Err("Duplicate message".to_string()));
    msg.content = "tampered".to_string();
    assert_eq!(m.accept_remote_message(&msg, &trusted), Err("Hash verification failed".to_string()));
}

#[test]
fn monitor_sees_changes_and_echoes() {
    let mut sync = ClipboardSyncManager::new("me".to_string());
    let mut mon = ClipboardMonitor::new();
    assert!(matches!(mon.check_text("", &sync), TextCheck::Unchanged));
    match mon.check_text("abc", &sync) {
        TextCheck::Changed(h) => assert_eq!(h, ClipSyncMessage::calculate_hash("abc")),
        other => panic!("unexpected {:?}", other),
    }
    assert!(matches!(mon.check_text("abc", &sync), TextCheck::Unchanged));
    sync.add_hash_to_cache(ClipSyncMessage::calculate_hash("remote"));
    assert!(matches!(mon.check_text("remote", &sync), TextCheck::Echo));
    assert!(matches!(mon.check_text("remote", &sync), TextCheck::Unchanged));
}

#[test]
fn sync_targets_match_host_or_name() {
    let trusted = vec![
        TrustedDevice {
            device_id: "abc".to_string(),
            device_name: "A".to_string(),
            paired_at: "t".to_string(),
            last_seen: "t".to_string(),
        },
        TrustedDevice {
            device_id: "zzz".to_string(),
            device_name: "Z".to_string(),
            paired_at: "t".to_string(),
            last_seen: "t".to_string(),
        },
        TrustedDevice {
            device_id: "svc".to_string(),
            device_name: "S".to_string(),
            paired_at: "t".to_string(),
            last_seen: "t".to_string(),
        },
    ];
    let discovered = vec![
        device("1", "first._clip_sync", "host-xabcx.local."),
        device("2", "svc-name", "other.local."),
        device("3", "abc", "third.local."),
    ];
    assert_eq!(sync_targets(&trusted, &discovered), vec![Some(0), None, Some(1)]);
}

#[test]
fn image_helpers() {
    let key = image_echo_key(2, 3, &[1, 2, 3]);
    assert_eq!(
        key,
        format!("img_2_3_{}", ClipSyncMessage::calculate_hash("AQID"))
    );
    let pixels = vec![255u8; 2 * 2 * 4];
    let (png, ext) = clipboard_image_file(2, 2, &pixels);
    assert_eq!(ext, "png");
    assert_eq!(&png[0..4], &[0x89, 0x50, 0x4E, 0x47]);
    let (raw, ext2) = clipboard_image_file(4, 4, &[0x42, 0x4D, 0, 0]);
    assert_eq!(ext2, "bmp");
    assert_eq!(raw, vec![0x42, 0x4D, 0, 0]);
    let p = new_image_path("gif");
    assert!(p.starts_with("images/img_"));
    assert!(p.ends_with(".gif"));
}

#[test]
fn remote_storage_plans() {
    let text = ClipSyncMessage::new(ClipType::Text, "hi".to_string(), "d".to_string());
    assert!(matches!(plan_remote_storage(&text), RemoteStorage::Content(c) if c == "hi"));
    let bad = ClipSyncMessage::new(ClipType::Image, "not base64!".to_string(), "d".to_string());
    assert!(matches!(plan_remote_storage(&bad), RemoteStorage::Content(c) if c == "not base64!"));
    let gif = ClipSyncMessage::new(ClipType::Image, "R0lGODlh".to_string(), "d".to_string());
    match plan_remote_storage(&gif) {
        RemoteStorage::ImageFile { bytes, relative_path } => {
            assert_eq!(bytes, b"GIF89a".to_vec());
            assert!(relative_path.starts_with("images/img_"));
            assert!(relative_path.ends_with(".gif"));
        }
        other => panic!("unexpected {:?}", other),
    }
}

#[test]
fn image_content_decodes_from_padded_base64() {
    assert_eq!(decode_image_content("R0lGODlh").unwrap(), b"GIF89a".to_vec());
    assert!(decode_image_content("R0lGODlh!").unwrap_err().starts_with("Failed to decode base64 image: "));
    assert!(decode_image_content("aGk").is_err());
}

#[test]
fn image_sync_message_carries_base64_from_this_device() {
    let m = image_sync_message("me", b"GIF89a");
    assert_eq!(m.msg_type, ClipType::Image);
    assert_eq!(m.content, "R0lGODlh");
    assert_eq!(m.source_device, "me");
    assert_eq!(m.hash, ClipSyncMessage::calculate_hash("R0lGODlh"));
    assert!(m.verify_hash());
    assert_eq!(m.file_name, None);
}

#[test]
fn png_round_trip_through_sync_message() {
    let pixels: Vec<u8> = (0u8..16).collect();
    let (png, ext) = clipboard_image_file(2, 2, &pixels);
    assert_eq!(ext, "png");
    let message = image_sync_message("me", &png);
    let img = clipboard_caoguo::server::decode_clipboard_image(&message.content).unwrap();
    assert_eq!((img.width, img.height), (2, 2));
    assert_eq!(img.pixels, pixels);
}

#[test]
fn image_message_bytes_arrive_intact() {
    for len in 0..10usize {
        let file: Vec<u8> = (0..len).map(|i| (i * 37 + 5) as u8).collect();
        let message = image_sync_message("me", &file);
        assert_eq!(decode_image_content(&message.content).unwrap(), file);
    }
}

fn trusted(id: &str) -> TrustedDevice {
    TrustedDevice {
        device_id: id.to_string(),
        device_name: format!("name-{}", id),
        paired_at: "t".to_string(),
        last_seen: "t".to_string(),
    }
}

#[test]
fn text_sync_goes_to_each_discovered_trusted_device() {
    let m = ClipboardSyncManager::new("me".to_string());
    let ts = vec![trusted("aaa"), trusted("zzz"), trusted("bbb")];
    let ds = vec![device("x", "svc-bbb", "h1"), device("y", "svc", "aaa.local."), device("z", "svc-aaa", "h3")];
    let r = text_sync_requests(&m, "hello", "me", &ts, &ds);
    let targets: Vec<usize> = r.iter().map(|p| p.0).collect();
    assert_eq!(targets, vec![1, 0]);
    for (_, req) in &r {
        assert_eq!(req.device_id, "me");
        assert_eq!(req.messages.len(), 1);
        assert_eq!(req.messages[0].msg_type, ClipType::Text);
        assert_eq!(req.messages[0].content, "hello");
        assert_eq!(req.messages[0].source_device, "me");
        assert!(req.messages[0].verify_hash());
    }
    assert!(text_sync_requests(&m, "hello", "me", &Vec::new(), &ds).is_empty());
    let mut cached = ClipboardSyncManager::new("me".to_string());
    cached.add_hash_to_cache(ClipSyncMessage::calculate_hash("hello"));
    assert!(text_sync_requests(&cached, "hello", "me", &ts, &ds).is_empty());
}

#[test]
fn monitor_ticks() {
    let mut m = ClipboardSyncManager::new("me".to_string());
    let mut mon = ClipboardMonitor::new();
    let ts = vec![trusted("aaa")];
    let ds = vec![device("y", "svc", "aaa.local.")];
    let pixels = [1u8, 2, 3, 4];
    match m.plan_tick(&mut mon, Some("hello"), Some((1, 1, &pixels[..])), &ts, &ds) {
        TickPlan::Run { text: TextCheck::Changed(h), requests, image: ImageStep::New(k) } => {
            assert_eq!(h, ClipSyncMessage::calculate_hash("hello"));
            assert_eq!(requests.len(), 1);
            assert_eq!(requests[0].0, 0);
            assert_eq!(k, image_echo_key(1, 1, &pixels));
        }
        other => panic!("unexpected plan {:?}", other),
    }
    assert!(m.is_hash_cached(&ClipSyncMessage::calculate_hash("hello")));
    assert!(m.is_hash_cached(&image_echo_key(1, 1, &pixels)));
    match m.plan_tick(&mut mon, Some("hello"), Some((1, 1, &pixels[..])), &ts, &ds) {
        TickPlan::Run { text: TextCheck::Unchanged, requests, image: ImageStep::Echo } => assert!(requests.is_empty()),
        other => panic!("unexpected plan {:?}", other),
    }
    let remote = ClipSyncMessage::new(ClipType::Text, "from afar".to_string(), "aaa".to_string());
    let mut table = TrustedDevicesManager::new();
    table.add_device("aaa".to_string(), "A".to_string());
    m.accept_remote_message(&remote, &table).unwrap();
    assert!(matches!(m.plan_tick(&mut mon, Some("from afar"), None, &ts, &ds), TickPlan::Skip));
    match m.plan_tick(&mut mon, Some("from afar"), Some((2, 2, &pixels[..])), &ts, &ds) {
        TickPlan::Run { text: TextCheck::Echo, requests, image: ImageStep::Absent } => assert!(requests.is_empty()),
        other => panic!("unexpected plan {:?}", other),
    }
    match m.plan_tick(&mut mon, None, None, &ts, &ds) {
        TickPlan::Run { text: TextCheck::Unchanged, requests, image: ImageStep::Absent } => assert!(requests.is_empty()),
        other => panic!("unexpected plan {:?}", other),
    }
}
