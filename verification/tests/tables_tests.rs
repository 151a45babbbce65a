use clipboard_caoguo::device::DeviceManager;
use clipboard_caoguo::pairing::{PairingManager, PairingStatus};
use clipboard_caoguo::trusted::{TrustedDevice, TrustedDevicesManager};

#[test]
fn trusted_add_lookup_remove() {
    let mut m = TrustedDevicesManager::new();
    assert!(!m.is_trusted("a"));
    m.add_device("a".to_string(), "Laptop".to_string());
    assert!(m.is_trusted("a"));
    let d = m.get_device("a").unwrap();
    assert_eq!(d.device_name, "Laptop");
    assert_eq!(d.paired_at, d.last_seen);
    assert_eq!(m.get_all_devices().len(), 1);
    assert_eq!(m.remove_device("a"), Ok(()));
    assert!(!m.is_trusted("a"));
    assert_eq!(m.remove_device("a"), Err("Device not found in trusted list".to_string()));
    assert!(m.get_device("a").is_none());
}

#[test]
fn trusted_add_replaces_same_id() {
    let mut m = TrustedDevicesManager::new();
    m.add_device("a".to_string(), "Old".to_string());
    m.add_device("b".to_string(), "Other".to_string());
    m.add_device("a".to_string(), "New".to_string());
    let all = m.get_all_devices();
    assert_eq!(all.len(), 2);
    assert_eq!(m.get_device("a").unwrap().device_name, "New");
}

#[test]
fn trusted_update_last_seen_and_clear() {
    let mut m = TrustedDevicesManager::new();
    assert_eq!(m.update_last_seen("x"), Err("Device not found in trusted list".to_string()));
    m.put_device(TrustedDevice {
        device_id: "x".to_string(),
        device_name: "X".to_string(),
        paired_at: "2000-01-01T00:00:00+00:00".to_string(),
        last_seen: "2000-01-01T00:00:00+00:00".to_string(),
    });
    assert_eq!(m.update_last_seen("x"), Ok(()));
    let d = m.get_device("x").unwrap();
    assert_eq!(d.paired_at, "2000-01-01T00:00:00+00:00");
    assert_ne!(d.last_seen, "2000-01-01T00:00:00+00:00");
    m.clear_all();
    assert!(m.get_all_devices().is_empty());
}

#[test]
fn trusted_from_devices_keeps_last_record() {
    let rec = |id: &str, name: &str| TrustedDevice {
        device_id: id.to_string(),
        device_name: name.to_string(),
        paired_at: "t".to_string(),
        last_seen: "t".to_string(),
    };
    let m = TrustedDevicesManager::from_devices(vec![rec("a", "1"), rec("b", "2"), rec("a", "3")]);
    assert_eq!(m.get_all_devices().len(), 2);
    assert_eq!(m.get_device("a").unwrap().device_name, "3");
    assert_eq!(m.get_device("b").unwrap().device_name, "2");
}

#[test]
fn pairing_flow_cancel_and_cleanup() {
    let mut p = PairingManager::new();
    let st = p.initiate_pairing("t1".to_string(), "Phone".to_string()).unwrap();
    assert_eq!(st.status, PairingStatus::Pending);
    assert_eq!(st.requested_at, st.updated_at);
    assert_eq!(p.cancel_pairing("t1".to_string()), Ok(true));
    assert_eq!(p.get_pairing_status("t1").unwrap().status, PairingStatus::Cancelled);
    assert_eq!(
        p.cancel_pairing("t1".to_string()),
        Err("Cannot cancel pairing with status: Cancelled".to_string())
    );
    assert_eq!(p.cancel_pairing("zz".to_string()), Err("Pairing request not found".to_string()));
    p.initiate_pairing("t2".to_string(), "Tablet".to_string()).unwrap();
    p.cleanup_completed_pairings();
    let all = p.get_all_pairings();
    assert_eq!(all.len(), 1);
    assert_eq!(all[0].target_device_id, "t2");
}

#[test]
fn pairing_timeout_only_changes_pending() {
    let mut p = PairingManager::new();
    p.initiate_pairing("a".to_string(), "A".to_string()).unwrap();
    p.initiate_pairing("b".to_string(), "B".to_string()).unwrap();
    assert_eq!(p.update_pairing_status("b".to_string(), PairingStatus::Accepted), Ok(()));
    p.expire_pairing("a");
    p.expire_pairing("b");
    p.expire_pairing("missing");
    assert_eq!(p.get_pairing_status("a").unwrap().status, PairingStatus::Timeout);
    assert_eq!(p.get_pairing_status("b").unwrap().status, PairingStatus::Accepted);
    assert!(p.get_pairing_status("missing").is_none());
    assert_eq!(
        p.update_pairing_status("missing".to_string(), PairingStatus::Failed),
        Err("Pairing request not found".to_string())
    );
    assert_eq!(
        p.cancel_pairing("a".to_string()),
        Err("Cannot cancel pairing with status: Timeout".to_string())
    );
    p.cleanup_completed_pairings();
    assert!(p.get_all_pairings().is_empty());
}

#[test]
fn status_names_match_debug() {
    for s in [
        PairingStatus::Pending,
        PairingStatus::Accepted,
        PairingStatus::Rejected,
        PairingStatus::Cancelled,
        PairingStatus::Timeout,
        PairingStatus::Failed,
    ] {
        assert_eq!(s.name(), format!("{:?}", s));
    }
}

fn is_v4(s: &str) -> bool {
    let b = s.as_bytes();
    b.len() == 36
        && b[8] == b'-'
        && b[13] == b'-'
        && b[18] == b'-'
        && b[23] == b'-'
        && b[14] == b'4'
        && matches!(b[19], b'8' | b'9' | b'a' | b'b')
}

#[test]
fn device_identity_lifecycle() {
    let mut m = DeviceManager::new(None);
    assert_eq!(
        m.get_device_info().unwrap_err(),
        "Device info not found. Please initialize first."
    );
    assert!(m.update_device_info(Some("x".to_string())).is_err());
    let id = m.get_or_create_device_id();
    assert!(is_v4(&id));
    assert_eq!(m.get_or_create_device_id(), id);
    let info = m.get_device_info().unwrap();
    assert_eq!(info.device_id, id);
    assert_eq!(info.created_at, info.last_updated);
    let renamed = m.update_device_info(Some("Desk".to_string())).unwrap();
    assert_eq!(renamed.device_name, "Desk");
    assert_eq!(renamed.device_id, id);
    assert_eq!(m.stored_info().unwrap().device_name, "Desk");
    let same_name = m.update_device_info(None).unwrap();
    assert_eq!(same_name.device_name, "Desk");
    m.reset_device_id();
    assert!(m.get_device_info().is_err());
    let other = m.get_or_create_device_id();
    assert_ne!(other, id);
    assert!(is_v4(&other));
    let fresh = m.get_device_info().unwrap();
    assert_eq!(fresh.created_at, fresh.last_updated);
}

#[test]
fn device_name_fallback() {
    assert_eq!(DeviceManager::device_name_from(None), "Unknown Device");
    assert_eq!(DeviceManager::device_name_from(Some("host".to_string())), "host");
    assert!(is_v4(&DeviceManager::generate_device_id()));
    assert!(!clipboard_caoguo::device::get_device_name().is_empty());
}

#[test]
fn all_devices_lists_each_trusted_device_once() {
    let mut m = TrustedDevicesManager::new();
    m.add_device("a".to_string(), "A".to_string());
    m.add_device("b".to_string(), "B".to_string());
    m.add_device("a".to_string(), "A2".to_string());
    m.update_last_seen("b").unwrap();
    let all = m.get_all_devices();
    assert_eq!(all.len(), 2);
    for d in &all {
        assert_eq!(m.get_device(&d.device_id).unwrap().device_name, d.device_name);
        assert!(m.is_trusted(&d.device_id));
    }
    assert!(m.is_trusted("a") && m.get_device("a").is_some());
    assert!(!m.is_trusted("c") && m.get_device("c").is_none());
    assert!(m.remove_device("b").is_ok());
    assert!(m.is_trusted("a"));
    m.clear_all();
    assert!(!m.is_trusted("a"));
}
