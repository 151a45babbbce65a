//! The devices found on the local network by mDNS.

use vstd::prelude::*;
use crate::NetworkDevice;
use crate::keyed::{Keyed, keys_distinct, has_key, table_of, find_key, lemma_table_at, lemma_table_empty, lemma_table_push, lemma_table_update, lemma_table_remove};
use crate::text::{decimal, decimal_text, has_suffix, owned, str_ends_with, str_equals};

verus! {

/// The mDNS service type of the sync service.
pub const SERVICE_TYPE: &'static str = "_clip_sync._tcp.local.";

/// The port announced when the HTTP server has not started.
pub const DEFAULT_SERVICE_PORT: u16 = 54321;

impl Keyed for NetworkDevice {
    open spec fn key(&self) -> Seq<char> {
        self.hostname@
    }

    fn key_str(&self) -> (k: &str) {
        self.hostname.as_str()
    }
}

/// The text with every trailing repetition of `suffix` removed
/// (`str::trim_end_matches`).
pub open spec fn trim_suffixes(s: Seq<char>, suffix: Seq<char>) -> Seq<char>
    decreases s.len(),
{
    if suffix.len() > 0 && has_suffix(s, suffix) {
        trim_suffixes(s.subrange(0, s.len() - suffix.len()), suffix)
    } else {
        s
    }
}

/// The port announced over mDNS: the server's port, or 54321 when it has not
/// started.
pub open spec fn announced_port(server_port: Option<u16>) -> u16 {
    match server_port {
        Some(p) => p,
        None => DEFAULT_SERVICE_PORT,
    }
}

/// The text with every trailing repetition of `suffix` removed.
pub fn trim_end_matches(s: &str, suffix: &str) -> (r: String)
    ensures
        r@ == trim_suffixes(s@, suffix@),
{
    let m = suffix.unicode_len();
    let mut cur = owned(s);
    if m == 0 {
        return cur;
    }
    while str_ends_with(cur.as_str(), suffix)
        invariant
            m == suffix@.len(),
            m > 0,
            trim_suffixes(s@, suffix@) == trim_suffixes(cur@, suffix@),
        decreases cur@.len(),
    {
        let n = cur.unicode_len();
        let shorter = owned(cur.as_str().substring_char(0, n - m));
        cur = shorter;
    }
    cur
}

/// The port announced over mDNS.
pub fn service_port(server_port: Option<u16>) -> (p: u16)
    ensures
        p == announced_port(server_port),
{
    match server_port {
        Some(p) => p,
        None => DEFAULT_SERVICE_PORT,
    }
}

/// The TXT records announced over mDNS: host name, address, port and version.
pub fn txt_properties(hostname: &str, ip: &str, port: u16) -> (r: Vec<(String, String)>)
    ensures
        r@.len() == 4,
        r@[0].0@ == "hostname"@ && r@[0].1@ == hostname@,
        r@[1].0@ == "ip"@ && r@[1].1@ == ip@,
        r@[2].0@ == "port"@ && r@[2].1@ == decimal(port as nat),
        r@[3].0@ == "version"@ && r@[3].1@ == "0.1.0"@,
{
    let mut r: Vec<(String, String)> = Vec::new();
    r.push((owned("hostname"), owned(hostname)));
    r.push((owned("ip"), owned(ip)));
    r.push((owned("port"), decimal_text(port as u64)));
    r.push((owned("version"), owned("0.1.0")));
    r
}

/// The index of the first device whose host name is `hostname`.
pub fn find_device_by_hostname(devices: &Vec<NetworkDevice>, hostname: &str) -> (r: Option<usize>)
    ensures
        match r {
            Some(i) => i < devices@.len() && devices@[i as int].hostname@ == hostname@ && forall|k: int|
                0 <= k < i ==> #[trigger] devices@[k].hostname@ != hostname@,
            None => forall|k: int| 0 <= k < devices@.len() ==> #[trigger] devices@[k].hostname@ != hostname@,
        },
{
    let n = devices.len();
    let mut i: usize = 0;
    while i < n
        invariant
            n == devices@.len(),
            i <= n,
            forall|k: int| 0 <= k < i ==> #[trigger] devices@[k].hostname@ != hostname@,
        decreases n - i,
    {
        if str_equals(devices[i].hostname.as_str(), hostname) {
            return Some(i);
        }
        i = i + 1;
    }
    None
}

/// The index of the first device whose device id is `device_id`.
pub fn find_device_by_id(devices: &Vec<NetworkDevice>, device_id: &str) -> (r: Option<usize>)
    ensures
        match r {
            Some(i) => i < devices@.len() && devices@[i as int].device_id@ == device_id@ && forall|k: int|
                0 <= k < i ==> #[trigger] devices@[k].device_id@ != device_id@,
            None => forall|k: int| 0 <= k < devices@.len() ==> #[trigger] devices@[k].device_id@ != device_id@,
        },
{
    let n = devices.len();
    let mut i: usize = 0;
    while i < n
        invariant
            n == devices@.len(),
            i <= n,
            forall|k: int| 0 <= k < i ==> #[trigger] devices@[k].device_id@ != device_id@,
        decreases n - i,
    {
        if str_equals(devices[i].device_id.as_str(), device_id) {
            return Some(i);
        }
        i = i + 1;
    }
    None
}

/// The devices discovered so far, one per host name.
pub struct DiscoveredDevices {
    devices: Vec<NetworkDevice>,
}

impl View for DiscoveredDevices {
    type V = Map<Seq<char>, NetworkDevice>;

    closed spec fn view(&self) -> Map<Seq<char>, NetworkDevice> {
        table_of(self.devices@)
    }
}

/// A copy of a device record.
fn copy_device(d: &NetworkDevice) -> (r: NetworkDevice)
    ensures
        r == *d,
{
    NetworkDevice {
        device_id: d.device_id.clone(),
        name: d.name.clone(),
        hostname: d.hostname.clone(),
        ip: d.ip.clone(),
        port: d.port,
        last_seen: d.last_seen.clone(),
    }
}

impl DiscoveredDevices {
    #[verifier::type_invariant]
    spec fn inv(self) -> bool {
        keys_distinct(self.devices@)
    }

    /// No devices.
    pub fn new() -> (d: Self)
        ensures
            d@ == Map::<Seq<char>, NetworkDevice>::empty(),
    {
        let devices: Vec<NetworkDevice> = Vec::new();
        proof {
            lemma_table_empty(devices@);
        }
        DiscoveredDevices { devices }
    }

    /// A resolved service: the device is stored under its host name,
    /// replacing an earlier record of that host.
    pub fn on_resolved(&mut self, device: NetworkDevice)
        ensures
            final(self)@ == old(self)@.insert(device.hostname@, device),
    {
        proof {
            use_type_invariant(&*self);
        }
        let mut devices: Vec<NetworkDevice> = Vec::new();
        std::mem::swap(&mut devices, &mut self.devices);
        match find_key(&devices, device.hostname.as_str()) {
            Some(i) => {
                proof {
                    lemma_table_update(devices@, i as int, device);
                }
                devices.set(i, device);
            },
            None => {
                proof {
                    lemma_table_push(devices@, device);
                }
                devices.push(device);
            },
        }
        self.devices = devices;
    }

    /// A removed service: its full name without the trailing service type
    /// names the record to drop (if any); that name is returned.
    pub fn on_removed(&mut self, fullname: &str) -> (name: String)
        ensures
            name@ == trim_suffixes(fullname@, "."@ + SERVICE_TYPE@),
            final(self)@ == old(self)@.remove(name@),
    {
        proof {
            use_type_invariant(&*self);
        }
        let mut suffix = owned(".");
        suffix.append(SERVICE_TYPE);
        let name = trim_end_matches(fullname, suffix.as_str());
        match find_key(&self.devices, name.as_str()) {
            Some(i) => {
                let mut devices: Vec<NetworkDevice> = Vec::new();
                std::mem::swap(&mut devices, &mut self.devices);
                proof {
                    lemma_table_remove(devices@, i as int);
                }
                devices.remove(i);
                self.devices = devices;
            },
            None => {
                assert(self@.remove(name@) =~= self@);
            },
        }
        name
    }

    /// Every discovered device, in no particular order.
    pub fn get_devices(&self) -> (r: Vec<NetworkDevice>)
        ensures
            keys_distinct(r@),
            table_of(r@) == self@,
    {
        proof {
            use_type_invariant(self);
        }
        let n = self.devices.len();
        let mut out: Vec<NetworkDevice> = Vec::new();
        let mut i: usize = 0;
        while i < n
            invariant
                n == self.devices@.len(),
                i <= n,
                out@ == self.devices@.subrange(0, i as int),
            decreases n - i,
        {
            out.push(copy_device(&self.devices[i]));
            assert(out@ =~= self.devices@.subrange(0, i + 1));
            i = i + 1;
        }
        assert(out@ =~= self.devices@);
        out
    }
}

} // verus!
