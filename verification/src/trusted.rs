//! The table of trusted (paired) devices.

use vstd::prelude::*;
use crate::keyed::{Keyed, keys_distinct, has_key, table_of, find_key, lemma_table_at, lemma_table_empty, lemma_table_push, lemma_table_update, lemma_table_remove, lemma_table_len};
use crate::platform::utc_now_rfc3339;
use crate::text::owned;

verus! {

/// A device that this one has paired with.
#[derive(Debug, Clone)]
pub struct TrustedDevice {
    pub device_id: String,
    pub device_name: String,
    /// When the pairing was made (RFC 3339).
    pub paired_at: String,
    /// When the device was last heard from (RFC 3339).
    pub last_seen: String,
}

impl Keyed for TrustedDevice {
    open spec fn key(&self) -> Seq<char> {
        self.device_id@
    }

    fn key_str(&self) -> (k: &str) {
        self.device_id.as_str()
    }
}

/// The message of the error for an unknown device.
pub open spec fn not_trusted_message() -> Seq<char> {
    "Device not found in trusted list"@
}

/// The record that pairing with `device_id` at time `now` creates.
pub open spec fn new_trusted_device(device_id: String, device_name: String, now: String) -> TrustedDevice {
    TrustedDevice { device_id, device_name, paired_at: now, last_seen: now }
}

/// The record `d` with its last-seen time set to `now`.
pub open spec fn seen_at(d: TrustedDevice, now: String) -> TrustedDevice {
    TrustedDevice { last_seen: now, ..d }
}

/// The trusted devices, one record per device id.
pub struct TrustedDevicesManager {
    devices: Vec<TrustedDevice>,
}

impl View for TrustedDevicesManager {
    type V = Map<Seq<char>, TrustedDevice>;

    closed spec fn view(&self) -> Map<Seq<char>, TrustedDevice> {
        table_of(self.devices@)
    }
}

/// A copy of a record.
fn copy_device(d: &TrustedDevice) -> (r: TrustedDevice)
    ensures
        r == *d,
{
    TrustedDevice {
        device_id: d.device_id.clone(),
        device_name: d.device_name.clone(),
        paired_at: d.paired_at.clone(),
        last_seen: d.last_seen.clone(),
    }
}

impl TrustedDevicesManager {
    #[verifier::type_invariant]
    spec fn inv(self) -> bool {
        keys_distinct(self.devices@)
    }

    /// An empty table.
    pub fn new() -> (m: Self)
        ensures
            m@ == Map::<Seq<char>, TrustedDevice>::empty(),
    {
        let devices: Vec<TrustedDevice> = Vec::new();
        proof {
            lemma_table_empty(devices@);
        }
        TrustedDevicesManager { devices }
    }

    /// Stores `device` under its id, replacing an earlier record of that id.
    pub fn put_device(&mut self, device: TrustedDevice)
        ensures
            final(self)@ == old(self)@.insert(device.device_id@, device),
    {
        proof {
            use_type_invariant(&*self);
        }
        let mut devices: Vec<TrustedDevice> = Vec::new();
        std::mem::swap(&mut devices, &mut self.devices);
        let found = find_key(&devices, device.device_id.as_str());
        match found {
            Some(i) => {
                proof {
                    lemma_table_update(devices@, i as int, device);
                }
                devices.set(i, device);
            },
            None => {
                proof {
                    lemma_table_push(devices@, device);
                }
                devices.push(device);
            },
        }
        self.devices = devices;
    }

    /// A table holding the given records; a later record replaces an earlier
    /// one with the same id.
    pub fn from_devices(devices: Vec<TrustedDevice>) -> (m: Self)
        ensures
            forall|k: Seq<char>| #[trigger] m@.dom().contains(k) <==> has_key(devices@, k),
            forall|i: int|
                0 <= i < devices@.len() && (forall|j: int| i < j < devices@.len() ==> #[trigger] devices@[j].key() != devices@[i].key())
                ==> m@[#[trigger] devices@[i].key()] == devices@[i],
    {
        let mut m = TrustedDevicesManager::new();
        let n = devices.len();
        let mut i: usize = 0;
        while i < n
            invariant
                n == devices@.len(),
                i <= n,
                forall|k: Seq<char>| #[trigger] m@.dom().contains(k) <==> has_key(devices@.subrange(0, i as int), k),
                forall|a: int|
                    0 <= a < i && (forall|j: int| a < j < i ==> #[trigger] devices@[j].key() != devices@[a].key())
                    ==> m@[#[trigger] devices@[a].key()] == devices@[a],
            decreases n - i,
        {
            let d = copy_device(&devices[i]);
            let ghost before = m@;
            m.put_device(d);
            proof {
                let pre = devices@.subrange(0, i as int);
                let post = devices@.subrange(0, i + 1);
                assert forall|k: Seq<char>| #[trigger] has_key(post, k) == (has_key(pre, k) || k == devices@[i as int].key()) by {
                    if has_key(pre, k) {
                        let a = choose|a: int| 0 <= a < pre.len() && #[trigger] pre[a].key() == k;
                        assert(post[a] == pre[a]);
                    }
                    if k == devices@[i as int].key() {
                        assert(post[i as int] == devices@[i as int]);
                    }
                    if has_key(post, k) {
                        let a = choose|a: int| 0 <= a < post.len() && #[trigger] post[a].key() == k;
                        if a < i {
                            assert(pre[a] == post[a]);
                        }
                    }
                }
                assert forall|a: int|
                    0 <= a < i + 1 && (forall|j: int| a < j < i + 1 ==> #[trigger] devices@[j].key() != devices@[a].key())
                    implies m@[#[trigger] devices@[a].key()] == devices@[a] by {
                    if a < i {
                        assert(devices@[i as int].key() != devices@[a].key());
                        assert(forall|j: int| a < j < i ==> #[trigger] devices@[j].key() != devices@[a].key());
                        assert(before[devices@[a].key()] == devices@[a]);
                    }
                }
            }
            i = i + 1;
        }
        assert(devices@.subrange(0, n as int) =~= devices@);
        m
    }

    /// Trusts `device_id` under `device_name`, stamping the pairing and
    /// last-seen times with the current time; an earlier record of the id is
    /// replaced.
    pub fn add_device(&mut self, device_id: String, device_name: String)
        ensures
            exists|now: String| final(self)@ == old(self)@.insert(device_id@, new_trusted_device(device_id, device_name, now)),
    {
        let now = utc_now_rfc3339();
        let ghost created = new_trusted_device(device_id, device_name, now);
        let device = TrustedDevice {
            device_id: device_id.clone(),
            device_name,
            paired_at: now.clone(),
            last_seen: now,
        };
        assert(device == created);
        self.put_device(device);
    }

    /// Stops trusting `device_id`; an error when it is not trusted.
    pub fn remove_device(&mut self, device_id: &str) -> (r: Result<(), String>)
        ensures
            old(self)@.dom().contains(device_id@) ==> r is Ok && final(self)@ == old(self)@.remove(device_id@),
            !old(self)@.dom().contains(device_id@) ==> final(self)@ == old(self)@ && (r matches Err(e) && e@ == not_trusted_message()),
    {
        proof {
            use_type_invariant(&*self);
        }
        match find_key(&self.devices, device_id) {
            Some(i) => {
                let mut devices: Vec<TrustedDevice> = Vec::new();
                std::mem::swap(&mut devices, &mut self.devices);
                proof {
                    lemma_table_remove(devices@, i as int);
                }
                devices.remove(i);
                self.devices = devices;
                Ok(())
            },
            None => Err(owned("Device not found in trusted list")),
        }
    }

    /// Whether `device_id` is trusted.
    pub fn is_trusted(&self, device_id: &str) -> (b: bool)
        ensures
            b == self@.dom().contains(device_id@),
    {
        find_key(&self.devices, device_id).is_some()
    }

    /// Sets the last-seen time of `device_id` to the current time; an error
    /// when it is not trusted.
    pub fn update_last_seen(&mut self, device_id: &str) -> (r: Result<(), String>)
        ensures
            old(self)@.dom().contains(device_id@) ==> r is Ok && exists|now: String|
                final(self)@ == old(self)@.insert(device_id@, seen_at(old(self)@[device_id@], now)),
            !old(self)@.dom().contains(device_id@) ==> final(self)@ == old(self)@ && (r matches Err(e) && e@ == not_trusted_message()),
    {
        proof {
            use_type_invariant(&*self);
        }
        match find_key(&self.devices, device_id) {
            Some(i) => {
                let now = utc_now_rfc3339();
                let old_dev = copy_device(&self.devices[i]);
                let ghost stamp = now;
                let updated = TrustedDevice { last_seen: now, ..old_dev };
                let mut devices: Vec<TrustedDevice> = Vec::new();
                std::mem::swap(&mut devices, &mut self.devices);
                proof {
                    lemma_table_at(devices@, i as int);
                    lemma_table_update(devices@, i as int, updated);
                }
                devices.set(i, updated);
                self.devices = devices;
                assert(updated == seen_at(old(self)@[device_id@], stamp));
                Ok(())
            },
            None => Err(owned("Device not found in trusted list")),
        }
    }

    /// The record of `device_id`, if it is trusted.
    pub fn get_device(&self, device_id: &str) -> (r: Option<&TrustedDevice>)
        ensures
            match r {
                Some(d) => self@.dom().contains(device_id@) && *d == self@[device_id@],
                None => !self@.dom().contains(device_id@),
            },
    {
        proof {
            use_type_invariant(self);
        }
        match find_key(&self.devices, device_id) {
            Some(i) => {
                proof {
                    lemma_table_at(self.devices@, i as int);
                }
                Some(&self.devices[i])
            },
            None => None,
        }
    }

    /// All trusted records, one per device id, in no particular order.
    pub fn get_all_devices(&self) -> (r: Vec<TrustedDevice>)
        ensures
            keys_distinct(r@),
            table_of(r@) == self@,
            r@.len() == self@.dom().len(),
            forall|k: int| 0 <= k < r@.len() ==> self@.dom().contains(#[trigger] r@[k].device_id@) && self@[r@[k].device_id@]
                == r@[k],
    {
        proof {
            use_type_invariant(self);
        }
        let n = self.devices.len();
        let mut out: Vec<TrustedDevice> = Vec::new();
        let mut i: usize = 0;
        while i < n
            invariant
                n == self.devices@.len(),
                i <= n,
                out@ == self.devices@.subrange(0, i as int),
            decreases n - i,
        {
            out.push(copy_device(&self.devices[i]));
            assert(out@ =~= self.devices@.subrange(0, i + 1));
            i = i + 1;
        }
        assert(out@ =~= self.devices@);
        proof {
            lemma_table_len(out@);
            assert forall|k: int| 0 <= k < out@.len() implies self@.dom().contains(#[trigger] out@[k].device_id@)
                && self@[out@[k].device_id@] == out@[k] by {
                lemma_table_at(out@, k);
            }
        }
        out
    }

    /// Forgets every trusted device.
    pub fn clear_all(&mut self)
        ensures
            final(self)@ == Map::<Seq<char>, TrustedDevice>::empty(),
    {
        let devices: Vec<TrustedDevice> = Vec::new();
        proof {
            lemma_table_empty(devices@);
        }
        self.devices = devices;
    }
}

/// A device just added is trusted, under the name it was added with, paired
/// and last seen at the same moment.
pub proof fn law_added_device_is_trusted(
    before: Map<Seq<char>, TrustedDevice>,
    device_id: String,
    device_name: String,
    now: String,
)
    ensures
        ({
            let after = before.insert(device_id@, new_trusted_device(device_id, device_name, now));
            &&& after.dom().contains(device_id@)
            &&& after[device_id@].device_name == device_name
            &&& after[device_id@].paired_at == after[device_id@].last_seen
        }),
{
}

/// Adding a device that was not trusted and then removing it gives back the
/// table as it was.
pub proof fn law_add_then_remove_restores(
    before: Map<Seq<char>, TrustedDevice>,
    device_id: String,
    device_name: String,
    now: String,
)
    requires
        !before.dom().contains(device_id@),
    ensures
        before.insert(device_id@, new_trusted_device(device_id, device_name, now)).remove(device_id@) == before,
{
    assert(before.insert(device_id@, new_trusted_device(device_id, device_name, now)).remove(device_id@) =~= before);
}

/// Removing a device ends its trust and leaves every other device as it was.
pub proof fn law_remove_affects_only_that_device(before: Map<Seq<char>, TrustedDevice>, device_id: Seq<char>, other: Seq<char>)
    requires
        other != device_id,
    ensures
        !before.remove(device_id).dom().contains(device_id),
        before.remove(device_id).dom().contains(other) == before.dom().contains(other),
        before.dom().contains(other) ==> before.remove(device_id)[other] == before[other],
{
}

/// Updating the last-seen time keeps the set of trusted devices, and keeps
/// the device's id, name and pairing time.
pub proof fn law_seen_keeps_trust(before: Map<Seq<char>, TrustedDevice>, device_id: Seq<char>, now: String)
    requires
        before.dom().contains(device_id),
    ensures
        ({
            let after = before.insert(device_id, seen_at(before[device_id], now));
            &&& after.dom() == before.dom()
            &&& after[device_id].device_id == before[device_id].device_id
            &&& after[device_id].device_name == before[device_id].device_name
            &&& after[device_id].paired_at == before[device_id].paired_at
            &&& after[device_id].last_seen == now
        }),
{
    let after = before.insert(device_id, seen_at(before[device_id], now));
    assert(after.dom() =~= before.dom());
}

/// A change that the manager's methods make to the table: `add_device` at a
/// time, `put_device`, `remove_device`, `update_last_seen` at a time, and
/// `clear_all`.
pub enum TableChange {
    Add { device_id: String, device_name: String, now: String },
    Put(TrustedDevice),
    Remove(String),
    Seen(String, String),
    Clear,
}

/// The table after one change, as the method's contract states it.
pub open spec fn after_change(m: Map<Seq<char>, TrustedDevice>, c: TableChange) -> Map<Seq<char>, TrustedDevice> {
    match c {
        TableChange::Add { device_id, device_name, now } => m.insert(
            device_id@,
            new_trusted_device(device_id, device_name, now),
        ),
        TableChange::Put(d) => m.insert(d.device_id@, d),
        TableChange::Remove(id) => m.remove(id@),
        TableChange::Seen(id, now) => if m.dom().contains(id@) {
            m.insert(id@, seen_at(m[id@], now))
        } else {
            m
        },
        TableChange::Clear => Map::empty(),
    }
}

/// The table after a sequence of changes, applied in order.
pub open spec fn after_changes(m: Map<Seq<char>, TrustedDevice>, cs: Seq<TableChange>) -> Map<
    Seq<char>,
    TrustedDevice,
>
    decreases cs.len(),
{
    if cs.len() == 0 {
        m
    } else {
        after_change(after_changes(m, cs.drop_last()), cs.last())
    }
}

/// Whether a change ends the trust in `id`: removing it, or clearing all.
pub open spec fn ends_trust(c: TableChange, id: Seq<char>) -> bool {
    match c {
        TableChange::Remove(x) => x@ == id,
        TableChange::Clear => true,
        _ => false,
    }
}

/// Trust lasts: a trusted device stays trusted through any changes until it
/// is removed or the table is cleared.
pub proof fn law_trust_persists(m: Map<Seq<char>, TrustedDevice>, id: Seq<char>, cs: Seq<TableChange>)
    requires
        m.dom().contains(id),
        forall|k: int| 0 <= k < cs.len() ==> !ends_trust(#[trigger] cs[k], id),
    ensures
        after_changes(m, cs).dom().contains(id),
    decreases cs.len(),
{
    if cs.len() > 0 {
        let p = cs.drop_last();
        assert forall|k: int| 0 <= k < p.len() implies !ends_trust(#[trigger] p[k], id) by {
            assert(p[k] == cs[k]);
        }
        law_trust_persists(m, id, p);
        assert(!ends_trust(cs[cs.len() - 1], id));
    }
}

} // verus!
