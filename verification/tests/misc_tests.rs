use clipboard_caoguo::client::{endpoint_url, FileUploader};
use clipboard_caoguo::discovery::{
    find_device_by_hostname, find_device_by_id, service_port, trim_end_matches, txt_properties, DiscoveredDevices,
};
use clipboard_caoguo::media::{data_url_mime_type, image_data_url, served_mime_type};
use clipboard_caoguo::server::{admit_transfer, arrival_file_id, FileTransferData};
use clipboard_caoguo::text::{decimal_text, signed_decimal_text, str_contains, str_ends_with};
use clipboard_caoguo::{
    check_config_port, detect_image_extension, favorite_toggled, saved_image, saved_image_file_name, search_pattern,
    NetworkDevice,
};

fn dev(host: &str, id: &str) -> NetworkDevice {
    NetworkDevice {
        device_id: id.to_string(),
        name: host.to_string(),
        hostname: host.to_string(),
        ip: "1.2.3.4".to_string(),
        port: 1,
        last_seen: "t".to_string(),
    }
}

#[test]
fn image_extensions_by_magic() {
    assert_eq!(detect_image_extension(&[0xFF, 0xD8, 0xFF, 0]), "jpg");
    assert_eq!(detect_image_extension(&[0x89, 0x50, 0x4E, 0x47, 0, 0, 0, 0]), "png");
    assert_eq!(detect_image_extension(&[0x89, 0x50, 0x4E, 0x47]), "png");
    assert_eq!(detect_image_extension(b"GIF87a"), "gif");
    assert_eq!(detect_image_extension(b"RIFF0000WEBP"), "webp");
    assert_eq!(detect_image_extension(b"BM"), "bmp");
    assert_eq!(detect_image_extension(b""), "png");
}

#[test]
fn mime_types() {
    assert_eq!(served_mime_type(b"xx", "a.gif"), "image/gif");
    assert_eq!(served_mime_type(b"xx", "a.webp"), "image/webp");
    assert_eq!(served_mime_type(b"xx", "a.png"), "image/png");
    assert_eq!(served_mime_type(b"xx", "a.bin"), "image/jpeg");
    assert_eq!(served_mime_type(b"BMxx", "a.png"), "image/bmp");
    assert_eq!(data_url_mime_type(&[0x89, 0x50, 0x4E, 0x47, 0x0D, 0x0A, 0x1A, 0x0A]), "image/png");
    assert_eq!(data_url_mime_type(&[0x89, 0x50, 0x4E, 0x47, 0, 0, 0, 0]), "image/jpeg");
    assert_eq!(data_url_mime_type(b"RIFF0000WEBP"), "image/jpeg");
    assert_eq!(data_url_mime_type(b"RIFF0000WEBPx"), "image/webp");
    assert_eq!(image_data_url(b"GIF89a"), "data:image/gif;base64,R0lGODlh");
}

#[test]
fn base64_through_public_paths() {
    assert_eq!(image_data_url(b"hi"), "data:image/jpeg;base64,aGk=");
    let up: FileUploader<fn(u64, u64)> = FileUploader::new("me".to_string(), "a.txt".to_string());
    assert_eq!(up.request_body(b"hi").file_data, "aGk=");
    let padded = FileTransferData {
        device_id: "me".to_string(),
        filename: "a.txt".to_string(),
        file_data: "aGk=".to_string(),
    };
    assert_eq!(admit_transfer(&padded, true).unwrap(), b"hi".to_vec());
    let stray_bits = FileTransferData { file_data: "aGl=".to_string(), ..padded };
    assert_eq!(admit_transfer(&stray_bits, true).unwrap_err().status, "error");
}

#[test]
fn saved_image_decodes_and_names() {
    let (name, bytes) = saved_image("R0lGODlh", Some("pic".to_string())).unwrap();
    assert_eq!(name, "pic.gif");
    assert_eq!(bytes, b"GIF89a".to_vec());
    let (kept, _) = saved_image("aGk=", Some("note.png".to_string())).unwrap();
    assert_eq!(kept, "note.png");
    let (default, _) = saved_image("aGk=", None).unwrap();
    assert!(default.starts_with("screenshot_") && default.ends_with(".jpg"));
    let err = saved_image("not base64!", None).unwrap_err();
    assert!(err.starts_with("Failed to decode base64: "));
}

#[test]
fn arrival_id_carries_its_time() {
    let (ts, id) = arrival_file_id("a:b.txt");
    assert!(ts > 0);
    assert_eq!(id, format!("{}_a_b.txt", ts));
}

#[test]
fn decimal_and_text_helpers() {
    assert_eq!(decimal_text(0), "0");
    assert_eq!(decimal_text(9527), "9527");
    assert_eq!(signed_decimal_text(i64::MIN), "-9223372036854775808");
    assert!(str_contains("hello", "ll"));
    assert!(str_contains("hello", ""));
    assert!(!str_contains("he", "hello"));
    assert!(str_ends_with("a.png", ".png"));
}

#[test]
fn urls_and_uploads() {
    assert_eq!(endpoint_url("192.168.1.2", 9527, "/ping"), "http://192.168.1.2:9527/ping");
    let up: FileUploader<fn(u64, u64)> = FileUploader::new("me".to_string(), "/tmp/dir/report.pdf".to_string());
    assert_eq!(up.upload_file_name(), "report.pdf");
    assert!(up.progress_callback().is_none());
    let body = up.request_body(b"hi");
    assert_eq!(body.filename, "report.pdf");
    assert_eq!(body.file_data, "aGk=");
    assert_eq!(admit_transfer(&body, true).unwrap(), b"hi".to_vec());
    let whole = up.request_body(b"abc");
    assert_eq!(admit_transfer(&whole, true).unwrap(), b"abc".to_vec());
    let none: FileUploader<fn(u64, u64)> = FileUploader::new("me".to_string(), "/".to_string());
    assert_eq!(none.upload_file_name(), "unknown");
    fn cb(_: u64, _: u64) {}
    let with = none.with_progress(cb as fn(u64, u64));
    assert!(with.progress_callback().is_some());
}

#[test]
fn discovery_table() {
    let mut d = DiscoveredDevices::new();
    d.on_resolved(dev("alpha.local.", "1"));
    d.on_resolved(dev("beta.local.", "2"));
    d.on_resolved(dev("alpha.local.", "3"));
    assert_eq!(d.get_devices().len(), 2);
    let gone = d.on_removed("beta.local.._clip_sync._tcp.local.");
    assert_eq!(gone, "beta.local.");
    assert_eq!(d.get_devices().len(), 1);
    assert_eq!(trim_end_matches("ab.x.x", ".x"), "ab");
    assert_eq!(service_port(None), 54321);
    assert_eq!(service_port(Some(9527)), 9527);
    let txt = txt_properties("h", "1.1.1.1", 9527);
    assert_eq!(txt[2], ("port".to_string(), "9527".to_string()));
    let list = vec![dev("a", "x"), dev("b", "y")];
    assert_eq!(find_device_by_hostname(&list, "b"), Some(1));
    assert_eq!(find_device_by_id(&list, "x"), Some(0));
    assert_eq!(find_device_by_id(&list, "z"), None);
}

#[test]
fn lib_helpers() {
    assert!(check_config_port(1024).is_ok());
    assert_eq!(check_config_port(80).unwrap_err(), "端口范围必须在 1024-65535 之间");
    assert_eq!(saved_image_file_name(Some("pic".to_string()), b"GIF89a"), "pic.gif");
    assert_eq!(saved_image_file_name(Some("pic.jpeg".to_string()), b"GIF89a"), "pic.jpeg");
    let default = saved_image_file_name(None, b"");
    assert!(default.starts_with("screenshot_") && default.ends_with(".jpg"));
}

#[test]
fn history_helpers() {
    assert_eq!(favorite_toggled(0), 1);
    assert_eq!(favorite_toggled(1), 0);
    assert_eq!(favorite_toggled(7), 0);
    assert_eq!(search_pattern("abc"), "%abc%");
    assert_eq!(search_pattern(""), "%%");
}
