use clipboard_caoguo::protocol::{ClipSyncMessage, ClipType};
use clipboard_caoguo::server::{
    admit_transfer, begin_sync, decode_clipboard_image, file_message_payload, filename_cut_fits, is_base64,
    rejected_sync_response, sanitize_filename, transfer_file_id, FileTransferData, PortProbe, PortSearch,
    ServerConfig, TrustLookup,
};
use std::collections::HashSet;

#[test]
fn config_defaults_and_port_floor() {
    let c = ServerConfig::default();
    assert_eq!((c.base_port, c.max_attempts), (9527, 100));
    let mut c = ServerConfig::from_stored(Some(8080));
    assert_eq!(c.base_port, 8080);
    c.set_base_port(80);
    assert_eq!(c.base_port, 8080);
    c.set_base_port(1024);
    assert_eq!(c.base_port, 1024);
    assert_eq!(ServerConfig::from_stored(Some(80)).base_port, 9527);
    assert_eq!(ServerConfig::from_stored(None).base_port, 9527);
    assert_eq!(ServerConfig::from_stored(Some(65536 + 2000)).base_port, 2000);
}

#[test]
fn sanitize_replaces_and_cuts() {
    assert_eq!(sanitize_filename("a/b\\c:d*e?f\"g<h>i|j"), "a_b_c_d_e_f_g_h_i_j");
    assert_eq!(sanitize_filename("tab\there\u{7f}\u{85}"), "tab_here__");
    let long = "x".repeat(150);
    assert_eq!(sanitize_filename(&long), "x".repeat(100));
    let wide = "é".repeat(60);
    assert!(filename_cut_fits(&wide));
    assert_eq!(sanitize_filename(&wide), "é".repeat(50));
    let odd = format!("x{}", "é".repeat(60));
    assert!(!filename_cut_fits(&odd));
    assert!(filename_cut_fits("short.txt"));
    let once = sanitize_filename("we<ird>.txt");
    assert_eq!(sanitize_filename(&once), once);
}

#[test]
fn base64_check() {
    assert!(is_base64("aGVsbG8="));
    assert!(is_base64("  aGVs\n"));
    assert!(!is_base64("aGVsbG8"));
    assert!(!is_base64("ab c"));
    assert!(is_base64(""));
    assert!(!is_base64("éé"));
    assert!(!is_base64("=AAA"));
    assert!(!is_base64("aGl="));
    assert!(is_base64("aGk="));
}

#[test]
fn sync_tally_statuses() {
    let rejected = rejected_sync_response("dev", TrustLookup::Known(false));
    assert_eq!(rejected.status, "rejected");
    assert_eq!(rejected.received_count, 0);
    assert_eq!(rejected.errors, vec!["Device dev is not trusted".to_string()]);
    let no_mgr = begin_sync("dev", TrustLookup::NoManager).err().unwrap();
    assert_eq!(
        no_mgr.errors,
        vec!["Trusted devices manager not available".to_string(), "Device dev is not trusted".to_string()]
    );
    let lock = begin_sync("dev", TrustLookup::LockFailed("poisoned".to_string())).err().unwrap();
    assert_eq!(lock.errors[0], "Failed to check trust status: poisoned");

    let mut tally = begin_sync("dev", TrustLookup::Known(true)).ok().unwrap();
    let good = ClipSyncMessage::new(ClipType::Text, "ok".to_string(), "dev".to_string());
    let back = tally.check_message(Ok(good), true).unwrap();
    assert_eq!(back.content, "ok");
    tally.record_applied(Ok(()));
    assert_eq!(tally.received_count(), 1);
    let all_good = tally.finish();
    assert_eq!(all_good.status, "success");

    let mut tally = begin_sync("dev", TrustLookup::Known(true)).ok().unwrap();
    assert!(tally.check_message(Err("bad json".to_string()), true).is_none());
    let mut broken = ClipSyncMessage::new(ClipType::Text, "ok".to_string(), "src".to_string());
    broken.content = "changed".to_string();
    assert!(tally.check_message(Ok(broken), true).is_none());
    let fine = ClipSyncMessage::new(ClipType::Text, "ok".to_string(), "src".to_string());
    assert!(tally.check_message(Ok(fine), false).is_none());
    tally.record_applied(Err("no clipboard".to_string()));
    let partial = tally.finish();
    assert_eq!(partial.status, "partial");
    assert_eq!(partial.received_count, 0);
    assert_eq!(
        partial.errors,
        vec![
            "Failed to parse message: bad json".to_string(),
            "Hash verification failed for message from src".to_string(),
            "Clipboard sync manager not available".to_string(),
            "Failed to update clipboard: no clipboard".to_string(),
        ]
    );
}

#[test]
fn file_transfer_decisions() {
    let data = |s: &str| FileTransferData {
        device_id: "d".to_string(),
        filename: "f.txt".to_string(),
        file_data: s.to_string(),
    };
    assert_eq!(admit_transfer(&data("aGk="), true).unwrap(), b"hi".to_vec());
    let rejected = admit_transfer(&data("aGk="), false).unwrap_err();
    assert_eq!(rejected.status, "rejected");
    let error = admit_transfer(&data("aGk"), true).unwrap_err();
    assert_eq!(error.status, "error");
    assert_eq!(error.file_size, 0);
    assert_eq!(transfer_file_id(1700000000123, "a/b.txt"), "1700000000123_a_b.txt");
    assert_eq!(transfer_file_id(-5, "x"), "-5_x");
}

#[test]
fn port_search_visits_every_port_once() {
    let mut s = PortSearch::new(20000, 10);
    assert_eq!(s.next_candidate(), PortProbe::Try(20000));
    let mut seen = HashSet::new();
    loop {
        match s.next_candidate() {
            PortProbe::Try(p) => {
                assert!((20000..20010).contains(&p));
                assert!(seen.insert(p));
            }
            PortProbe::Exhausted => break,
            PortProbe::RangeOverflow => panic!("no overflow expected"),
        }
    }
    assert_eq!(seen.len(), 10);
    let mut high = PortSearch::new(65530, 100);
    assert_eq!(high.next_candidate(), PortProbe::Try(65530));
    assert_eq!(high.next_candidate(), PortProbe::RangeOverflow);
    let mut none = PortSearch::new(3000, 0);
    assert_eq!(none.next_candidate(), PortProbe::Try(3000));
    assert_eq!(none.next_candidate(), PortProbe::Exhausted);
}

#[test]
fn clipboard_image_decoding_and_files() {
    let err = decode_clipboard_image("%%%").unwrap_err();
    assert!(err.starts_with("Failed to decode base64 image: "));
    let err = decode_clipboard_image("aGk=").unwrap_err();
    assert!(err.starts_with("Failed to decode image: "));
    let text = ClipSyncMessage::new_file("plain text".to_string(), "n.txt".to_string(), 10, "d".to_string());
    let (name, bytes) = file_message_payload(&text).unwrap();
    assert_eq!(name, "n.txt");
    assert_eq!(bytes, b"plain text".to_vec());
    let mut b64 = ClipSyncMessage::new(ClipType::File, "aGk=".to_string(), "d".to_string());
    let (name, bytes) = file_message_payload(&b64).unwrap();
    assert_eq!(name, "clipboard_file.txt");
    assert_eq!(bytes, b"hi".to_vec());
    b64.content = "aGl=".to_string();
    let (_, stray) = file_message_payload(&b64).unwrap();
    assert_eq!(stray, b"aGl=".to_vec());
    b64.content = " aGk= ".to_string();
    assert!(file_message_payload(&b64).unwrap_err().starts_with("Failed to decode base64 content: "));
}

#[test]
fn config_read_from_file_text() {
    assert_eq!(ServerConfig::config_from_text(None).base_port, 9527);
    assert_eq!(ServerConfig::config_from_text(Some("{\"base_port\": 8000}")).base_port, 8000);
    assert_eq!(ServerConfig::config_from_text(Some("{\"base_port\": 80}")).base_port, 9527);
    assert_eq!(ServerConfig::config_from_text(Some("{\"base_port\": 70000}")).base_port, 4464);
    assert_eq!(ServerConfig::config_from_text(Some("{}")).base_port, 9527);
    assert_eq!(ServerConfig::config_from_text(Some("not json")).base_port, 9527);
    assert_eq!(ServerConfig::config_from_text(Some("{\"base_port\": 8000}")).max_attempts, 100);
}
