//! Clipboard history and LAN clipboard synchronisation: the message protocol,
//! the trusted-device and pairing tables, device identity, the echo-suppressing
//! hash cache, and the server-side decisions of the sync service.

pub mod client;
pub mod clipboard;
pub mod device;
pub mod discovery;
pub mod encoding;
pub mod imaging;
pub mod keyed;
pub mod media;
pub mod pairing;
pub mod platform;
pub mod protocol;
pub mod server;
pub mod text;
pub mod trusted;

pub use media::detect_image_extension;

use vstd::prelude::*;
use crate::encoding::{base64_text, decode_standard};
use crate::media::image_extension;
use crate::platform::utc_file_stamp;
use crate::server::starts_with_text;
use crate::text::{contains_run, joined, owned, str_contains};

verus! {

/// One entry of the clipboard history.
#[derive(Debug, Clone)]
pub struct ClipboardItem {
    pub id: i64,
    /// `text` or `image`.
    pub content_type: String,
    /// The text, or empty for an image.
    pub content: String,
    /// Path of the stored image file, for images.
    pub file_path: Option<String>,
    /// RFC 3339.
    pub created_at: String,
    pub favorite: bool,
}

/// A device found on the local network.
#[derive(Debug, Clone)]
pub struct NetworkDevice {
    pub device_id: String,
    pub name: String,
    pub hostname: String,
    pub ip: String,
    pub port: u16,
    pub last_seen: String,
}

/// What this device announces over mDNS.
#[derive(Debug, Clone)]
pub struct MdnsServiceInfo {
    pub service_type: String,
    pub service_name: String,
    pub port: u16,
    pub txt_records: Vec<(String, String)>,
}

/// The favourite flag after a toggle: an unset flag (0) becomes 1, any other
/// value becomes 0.
pub fn favorite_toggled(current: i64) -> (r: i64)
    ensures
        r == (if current == 0 { 1i64 } else { 0i64 }),
{
    if current == 0 {
        1
    } else {
        0
    }
}

/// The `LIKE` pattern that finds history texts containing `query`.
pub fn search_pattern(query: &str) -> (p: String)
    ensures
        p@ == "%"@ + query@ + "%"@,
{
    let mut p = owned("%");
    p.append(query);
    p.append("%");
    p
}

/// The message of the error for a port outside 1024-65535.
pub open spec fn port_range_message() -> Seq<char> {
    "端口范围必须在 1024-65535 之间"@
}

/// A port may be configured when it is at least 1024.
pub fn check_config_port(port: u16) -> (r: Result<(), String>)
    ensures
        port >= 1024 ==> r is Ok,
        port < 1024 ==> (r matches Err(e) && e@ == port_range_message()),
{
    if port < 1024 {
        Err(owned("端口范围必须在 1024-65535 之间"))
    } else {
        Ok(())
    }
}

/// The name under which an image is saved: the given name, or
/// `screenshot_<time>.jpg`; a name without a `.` gets the extension that the
/// image's leading bytes suggest.
pub open spec fn saved_name_for(name: Seq<char>, image: Seq<u8>) -> Seq<char> {
    if contains_run(name, "."@) {
        name
    } else {
        name + "."@ + image_extension(image)
    }
}

/// The default name of a saved image taken at `stamp`.
pub open spec fn screenshot_name(stamp: Seq<char>) -> Seq<char> {
    "screenshot_"@ + stamp + ".jpg"@
}

/// The name under which an image is saved (see `saved_name_for`).
pub fn saved_image_file_name(filename: Option<String>, image: &[u8]) -> (r: String)
    ensures
        filename matches Some(n) ==> r@ == saved_name_for(n@, image@),
        filename is None ==> exists|stamp: String| r@ == saved_name_for(screenshot_name(stamp@), image@),
{
    let name = match filename {
        Some(n) => n,
        None => {
            let stamp = utc_file_stamp();
            let mut n = owned("screenshot_");
            n.append(stamp.as_str());
            n.append(".jpg");
            assert(n@ == screenshot_name(stamp@));
            n
        },
    };
    if str_contains(name.as_str(), ".") {
        name
    } else {
        let mut with_ext = name;
        with_ext.append(".");
        with_ext.append(media::detect_image_extension(image));
        with_ext
    }
}

/// The name and bytes of an image that is saved from its base64 text: the
/// text must decode, else an error naming the step; the name is chosen as
/// `saved_image_file_name` does.
pub fn saved_image(base64_data: &str, filename: Option<String>) -> (r: Result<(String, Vec<u8>), String>)
    ensures
        r is Ok <==> exists|d: Seq<u8>| base64_text(d, true) == base64_data@,
        r matches Ok((name, bytes)) ==> base64_text(bytes@, true) == base64_data@ && (match filename {
            Some(n) => name@ == saved_name_for(n@, bytes@),
            None => exists|stamp: String| name@ == saved_name_for(screenshot_name(stamp@), bytes@),
        }),
        r matches Err(e) ==> starts_with_text(e@, "Failed to decode base64: "@),
{
    match decode_standard(base64_data) {
        Ok(bytes) => {
            let name = saved_image_file_name(filename, bytes.as_slice());
            Ok((name, bytes))
        },
        Err(e) => {
            let msg = joined("Failed to decode base64: ", e.as_str());
            assert(msg@.subrange(0, "Failed to decode base64: "@.len() as int) =~= "Failed to decode base64: "@);
            Err(msg)
        },
    }
}

} // verus!
