//! Device identity: the id, name and time stamps that the device config file
//! keeps.

use vstd::prelude::*;
use crate::platform::{host_name, utc_now_rfc3339};
use crate::text::owned;

verus! {

/// Whether `c` is one of `0123456789abcdef`.
pub open spec fn is_lower_hex_digit(c: char) -> bool {
    ('0' <= c && c <= '9') || ('a' <= c && c <= 'f')
}

/// Whether `s` is a random (version 4) UUID in hyphenated lower-case form,
/// `xxxxxxxx-xxxx-4xxx-Vxxx-xxxxxxxxxxxx` with `V` one of `89ab`.
pub open spec fn is_v4_uuid_text(s: Seq<char>) -> bool {
    &&& s.len() == 36
    &&& s[8] == '-' && s[13] == '-' && s[18] == '-' && s[23] == '-'
    &&& s[14] == '4'
    &&& (s[19] == '8' || s[19] == '9' || s[19] == 'a' || s[19] == 'b')
    &&& forall|i: int| 0 <= i < 36 && i != 8 && i != 13 && i != 18 && i != 23 ==> is_lower_hex_digit(#[trigger] s[i])
}

/// `uuid::Uuid::new_v4().to_string()`: a random version-4 UUID, written in
/// the hyphenated lower-case form (`Display` of `Uuid` formats
/// `as_hyphenated` with the lower-case table; `new_v4` sets the version
/// nibble to 4 and the variant bits to `10`).
#[verifier::external_body]
pub(crate) fn new_uuid_v4_text() -> (s: String)
    ensures
        is_v4_uuid_text(s@),
{
    uuid::Uuid::new_v4().to_string()
}

/// The name given when the host name cannot be read.
pub open spec fn unknown_device_name() -> Seq<char> {
    "Unknown Device"@
}

/// The device name for a host-name lookup result.
pub open spec fn device_name_for(host: Option<String>) -> Seq<char> {
    match host {
        Some(h) => h@,
        None => unknown_device_name(),
    }
}

/// The message of the error for a device that has no identity yet.
pub open spec fn not_initialized_message() -> Seq<char> {
    "Device info not found. Please initialize first."@
}

/// What asking for the device id does: a stored record keeps its id and stays
/// as it is; without one, a new random id is recorded with the host name and a
/// single time stamp for creation and update.
pub open spec fn id_obtained(before: Option<DeviceInfo>, after: Option<DeviceInfo>, id: String) -> bool {
    match before {
        Some(d) => id == d.device_id && after == before,
        None => is_v4_uuid_text(id@) && (after matches Some(n) && n.device_id == id && n.created_at == n.last_updated
            && exists|host: Option<String>| n.device_name@ == device_name_for(host)),
    }
}

/// What renaming does: before the first run it fails with the not-initialised
/// message and nothing changes; afterwards the id and creation time stay, the
/// name is the given one if any, and the stored record is the one returned.
pub open spec fn info_updated(
    before: Option<DeviceInfo>,
    after: Option<DeviceInfo>,
    name: Option<String>,
    r: Result<DeviceInfo, String>,
) -> bool {
    match before {
        None => after is None && (r matches Err(e) && e@ == not_initialized_message()),
        Some(d) => r matches Ok(n) && after == Some(n) && n.device_id == d.device_id && n.created_at == d.created_at
            && n.device_name == (match name {
            Some(x) => x,
            None => d.device_name,
        }),
    }
}

/// The identity of this device.
#[derive(Debug, Clone)]
pub struct DeviceInfo {
    pub device_id: String,
    pub device_name: String,
    /// When the id was made (RFC 3339).
    pub created_at: String,
    /// When the record last changed (RFC 3339).
    pub last_updated: String,
}

/// A copy of a record.
fn copy_info(d: &DeviceInfo) -> (r: DeviceInfo)
    ensures
        r == *d,
{
    DeviceInfo {
        device_id: d.device_id.clone(),
        device_name: d.device_name.clone(),
        created_at: d.created_at.clone(),
        last_updated: d.last_updated.clone(),
    }
}

/// The device identity as the config file holds it: nothing before the first
/// run, a record afterwards.
pub struct DeviceManager {
    stored: Option<DeviceInfo>,
}

impl View for DeviceManager {
    type V = Option<DeviceInfo>;

    closed spec fn view(&self) -> Option<DeviceInfo> {
        self.stored
    }
}

impl DeviceManager {
    /// A manager over the record read from the config file, if any.
    pub fn new(stored: Option<DeviceInfo>) -> (m: Self)
        ensures
            m@ == stored,
    {
        DeviceManager { stored }
    }

    /// The record to write back to the config file, if any.
    pub fn stored_info(&self) -> (r: Option<DeviceInfo>)
        ensures
            r == self@,
    {
        match &self.stored {
            Some(d) => Some(copy_info(d)),
            None => None,
        }
    }

    /// A fresh random device id (a version-4 UUID).
    pub fn generate_device_id() -> (s: String)
        ensures
            is_v4_uuid_text(s@),
    {
        new_uuid_v4_text()
    }

    /// The device name for a host-name lookup result: the host name, or
    /// `Unknown Device` when the lookup failed.
    pub fn device_name_from(host: Option<String>) -> (s: String)
        ensures
            s@ == device_name_for(host),
    {
        match host {
            Some(h) => h,
            None => owned("Unknown Device"),
        }
    }

    /// The system host name, or `Unknown Device` when it cannot be read.
    pub fn get_device_name(&self) -> (s: String)
        ensures
            exists|host: Option<String>| s@ == device_name_for(host),
    {
        get_device_name()
    }

    /// The device id: the stored one, or on the first run a new random id,
    /// recorded together with the host name and the current time.
    pub fn get_or_create_device_id(&mut self) -> (id: String)
        ensures
            id_obtained(old(self)@, final(self)@, id),
    {
        match &self.stored {
            Some(d) => d.device_id.clone(),
            None => {
                let device_id = Self::generate_device_id();
                let device_name = self.get_device_name();
                let now = utc_now_rfc3339();
                let info = DeviceInfo {
                    device_id: device_id.clone(),
                    device_name,
                    created_at: now.clone(),
                    last_updated: now,
                };
                self.stored = Some(info);
                device_id
            },
        }
    }

    /// Renames the device when a name is given and stamps the record with the
    /// current time; an error before the first run.
    pub fn update_device_info(&mut self, device_name: Option<String>) -> (r: Result<DeviceInfo, String>)
        ensures
            info_updated(old(self)@, final(self)@, device_name, r),
    {
        match &self.stored {
            None => Err(owned("Device info not found. Please initialize first.")),
            Some(d) => {
                let mut info = copy_info(d);
                match device_name {
                    Some(name) => {
                        info.device_name = name;
                    },
                    None => {},
                }
                info.last_updated = utc_now_rfc3339();
                let out = copy_info(&info);
                self.stored = Some(info);
                Ok(out)
            },
        }
    }

    /// The stored record; an error before the first run.
    pub fn get_device_info(&self) -> (r: Result<DeviceInfo, String>)
        ensures
            self@ matches Some(d) ==> r == Ok::<DeviceInfo, String>(d),
            self@ is None ==> (r matches Err(e) && e@ == not_initialized_message()),
    {
        match &self.stored {
            Some(d) => Ok(copy_info(d)),
            None => Err(owned("Device info not found. Please initialize first.")),
        }
    }

    /// Forgets the identity; the next `get_or_create_device_id` makes a new one.
    pub fn reset_device_id(&mut self)
        ensures
            final(self)@ is None,
    {
        self.stored = None;
    }
}

/// Asking for the device id twice gives the same id, and the second call
/// changes nothing.
pub proof fn law_device_id_stable(
    before: Option<DeviceInfo>,
    middle: Option<DeviceInfo>,
    first: String,
    after: Option<DeviceInfo>,
    second: String,
)
    requires
        id_obtained(before, middle, first),
        id_obtained(middle, after, second),
    ensures
        second == first,
        after == middle,
{
}

/// Once an id was obtained, the stored record carries it, and renaming keeps it.
pub proof fn law_rename_keeps_id(
    before: Option<DeviceInfo>,
    middle: Option<DeviceInfo>,
    id: String,
    name: Option<String>,
    after: Option<DeviceInfo>,
    r: Result<DeviceInfo, String>,
)
    requires
        id_obtained(before, middle, id),
        info_updated(middle, after, name, r),
    ensures
        r is Ok,
        after matches Some(d) && d.device_id == id,
{
}

/// After a reset the next request for the id makes a new identity: a fresh
/// random version-4 id, recorded with matching creation and update times.
pub proof fn law_reset_then_new_identity(after: Option<DeviceInfo>, id: String)
    requires
        id_obtained(None, after, id),
    ensures
        is_v4_uuid_text(id@),
        after matches Some(d) && d.device_id == id && d.created_at == d.last_updated,
{
}

/// The system host name, or `Unknown Device` when it cannot be read.
pub fn get_device_name() -> (s: String)
    ensures
        exists|host: Option<String>| s@ == device_name_for(host),
{
    DeviceManager::device_name_from(host_name())
}

} // verus!
