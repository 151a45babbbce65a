//! The clipboard sync manager: the cache of recently received content hashes
//! that keeps a remote write from being sent back (echo), the flag that makes
//! the monitor skip the tick after a remote write, and the choices the monitor
//! makes on each tick.

use vstd::prelude::*;
use std::collections::VecDeque;
use crate::NetworkDevice;
use crate::encoding::{base64_text, decode_standard, encode_standard, law_padded_base64_decodes_uniquely};
use crate::imaging::{encode_png_rgba, png_of_rgba, rgba_of_image};
use crate::media::image_extension;
use crate::platform::{local_file_stamp, random_u32};
use crate::protocol::{ClipSyncMessage, ClipType, SyncRequest, content_hash};
use crate::server::starts_with_text;
use crate::text::{contains_run, decimal, decimal_text, joined, owned, str_contains, str_equals};
use crate::trusted::{TrustedDevice, TrustedDevicesManager};

verus! {

broadcast use vstd::std_specs::vecdeque::axiom_spec_len;

/// How many recent hashes the cache keeps.
pub const HASH_CACHE_SIZE: usize = 100;

/// The cache after `h` is appended: the oldest entries leave so that at most
/// `HASH_CACHE_SIZE` remain.
pub open spec fn cache_after_push(c: Seq<Seq<char>>, h: Seq<char>) -> Seq<Seq<char>> {
    let p = c.push(h);
    if p.len() > HASH_CACHE_SIZE {
        p.subrange(p.len() - HASH_CACHE_SIZE, p.len() as int)
    } else {
        p
    }
}

/// The message of the error for a message whose hash does not match.
pub open spec fn hash_mismatch_message() -> Seq<char> {
    "Hash verification failed"@
}

/// The message of the error for a message from an untrusted device.
pub open spec fn untrusted_sender_message() -> Seq<char> {
    "Device not trusted"@
}

/// The message of the error for a message already received.
pub open spec fn duplicate_message() -> Seq<char> {
    "Duplicate message"@
}

/// What the monitor does with the text it read from the clipboard.
#[derive(Debug)]
pub enum TextCheck {
    /// Empty, or the same as last time: nothing to do.
    Unchanged,
    /// New text whose hash is in the cache (it came from another device):
    /// the rest of this tick is skipped.
    Echo,
    /// New local text with this content hash: store it and sync it.
    Changed(String),
}

/// The clipboard sync manager of this device.
pub struct ClipboardSyncManager {
    device_id: String,
    hash_cache: VecDeque<String>,
    is_local_update: bool,
}

impl ClipboardSyncManager {
    #[verifier::type_invariant]
    spec fn inv(self) -> bool {
        self.hash_cache@.len() <= HASH_CACHE_SIZE
    }

    /// The cached hashes, oldest first.
    pub closed spec fn cache(&self) -> Seq<Seq<char>> {
        self.hash_cache@.map_values(|h: String| h@)
    }

    /// Whether the next monitor tick reads the clipboard (false right after a
    /// remote write).
    pub closed spec fn local_update(&self) -> bool {
        self.is_local_update
    }

    /// The id of this device.
    pub closed spec fn id(&self) -> Seq<char> {
        self.device_id@
    }

    /// A manager with an empty cache that reads the clipboard on the next tick.
    pub fn new(device_id: String) -> (m: Self)
        ensures
            m.cache() == Seq::<Seq<char>>::empty(),
            m.local_update(),
            m.id() == device_id@,
    {
        let m = ClipboardSyncManager { device_id, hash_cache: VecDeque::new(), is_local_update: true };
        assert(m.cache() =~= Seq::<Seq<char>>::empty());
        m
    }

    /// The id of this device.
    pub fn device_id(&self) -> (s: &str)
        ensures
            s@ == self.id(),
    {
        self.device_id.as_str()
    }

    /// The file extension for image bytes (jpg, png, gif, webp, bmp; png when
    /// unknown).
    pub fn detect_image_extension(data: &[u8]) -> (e: &'static str)
        ensures
            e@ == image_extension(data@),
    {
        crate::media::detect_image_extension(data)
    }

    /// Whether `hash` is in the cache.
    pub fn is_hash_cached(&self, hash: &str) -> (b: bool)
        ensures
            b == self.cache().contains(hash@),
    {
        let n = self.hash_cache.len();
        let mut i: usize = 0;
        while i < n
            invariant
                n == self.hash_cache@.len(),
                i <= n,
                forall|k: int| 0 <= k < i ==> self.cache()[k] != hash@,
            decreases n - i,
        {
            if str_equals(self.hash_cache[i].as_str(), hash) {
                assert(self.cache()[i as int] == hash@);
                return true;
            }
            i = i + 1;
        }
        false
    }

    /// Appends `hash` to the cache, dropping the oldest entry beyond
    /// `HASH_CACHE_SIZE`.
    pub fn add_hash_to_cache(&mut self, hash: String)
        ensures
            final(self).cache() == cache_after_push(old(self).cache(), hash@),
            final(self).cache().len() <= HASH_CACHE_SIZE,
            final(self).local_update() == old(self).local_update(),
            final(self).id() == old(self).id(),
    {
        proof {
            use_type_invariant(&*self);
        }
        let ghost h = hash@;
        let mut cache: VecDeque<String> = VecDeque::new();
        std::mem::swap(&mut cache, &mut self.hash_cache);
        let ghost before = cache@;
        cache.push_back(hash);
        if cache.len() > HASH_CACHE_SIZE {
            let _oldest = cache.pop_front();
        }
        self.hash_cache = cache;
        proof {
            let c0 = before.map_values(|s: String| s@);
            assert(before.push(hash).map_values(|s: String| s@) =~= c0.push(h));
            assert(self.cache() =~= cache_after_push(c0, h));
        }
    }

    /// Empties the cache.
    pub fn clear_hash_cache(&mut self)
        ensures
            final(self).cache() == Seq::<Seq<char>>::empty(),
            final(self).local_update() == old(self).local_update(),
            final(self).id() == old(self).id(),
    {
        self.hash_cache = VecDeque::new();
        assert(self.cache() =~= Seq::<Seq<char>>::empty());
    }

    /// The checks that a message from another device passes before it is
    /// written to the clipboard: its hash must match its content, its sender
    /// must be trusted, and its hash must not be cached. A message that passes
    /// has its hash cached and makes the monitor skip its next tick.
    pub fn accept_remote_message(&mut self, message: &ClipSyncMessage, trusted: &TrustedDevicesManager) -> (r: Result<(), String>)
        ensures
            message.hash@ != content_hash(message.content@) ==> *final(self) == *old(self)
                && (r matches Err(e) && e@ == hash_mismatch_message()),
            message.hash@ == content_hash(message.content@) && !trusted@.dom().contains(message.source_device@)
                ==> *final(self) == *old(self) && (r matches Err(e) && e@ == untrusted_sender_message()),
            message.hash@ == content_hash(message.content@) && trusted@.dom().contains(message.source_device@)
                && old(self).cache().contains(message.hash@)
                ==> *final(self) == *old(self) && (r matches Err(e) && e@ == duplicate_message()),
            message.hash@ == content_hash(message.content@) && trusted@.dom().contains(message.source_device@)
                && !old(self).cache().contains(message.hash@)
                ==> r is Ok && final(self).cache() == cache_after_push(old(self).cache(), message.hash@)
                && final(self).cache().len() <= HASH_CACHE_SIZE
                && !final(self).local_update() && final(self).id() == old(self).id(),
    {
        if !message.verify_hash() {
            return Err(owned("Hash verification failed"));
        }
        if !trusted.is_trusted(message.source_device.as_str()) {
            return Err(owned("Device not trusted"));
        }
        if self.is_hash_cached(message.hash.as_str()) {
            return Err(owned("Duplicate message"));
        }
        self.add_hash_to_cache(message.hash.clone());
        self.is_local_update = false;
        Ok(())
    }

    /// The monitor's check at the start of a tick: right after a remote write
    /// the tick is skipped (answer `true`) and the next one reads again.
    pub fn skip_tick_after_remote_write(&mut self) -> (skip: bool)
        ensures
            skip == !old(self).local_update(),
            final(self).local_update(),
            final(self).cache() == old(self).cache(),
            final(self).id() == old(self).id(),
    {
        proof {
            use_type_invariant(&*self);
        }
        if !self.is_local_update {
            self.is_local_update = true;
            true
        } else {
            false
        }
    }
}

/// What the monitor remembers between ticks: the last text it saw.
pub struct ClipboardMonitor {
    last_text: String,
}

impl ClipboardMonitor {
    /// The last text seen.
    pub closed spec fn last(&self) -> Seq<char> {
        self.last_text@
    }

    /// A monitor that has seen no text.
    pub fn new() -> (m: Self)
        ensures
            m.last() == Seq::<char>::empty(),
    {
        ClipboardMonitor { last_text: String::new() }
    }

    /// Looks at the clipboard text of this tick: empty or unchanged text is
    /// ignored; new text is remembered, and is an echo when its hash is cached,
    /// else a change to store and sync.
    pub fn check_text(&mut self, text: &str, sync: &ClipboardSyncManager) -> (c: TextCheck)
        ensures
            text@.len() == 0 || text@ == old(self).last() ==> c is Unchanged && final(self).last() == old(self).last(),
            text@.len() != 0 && text@ != old(self).last() ==> final(self).last() == text@ && (
                if sync.cache().contains(content_hash(text@)) {
                    c is Echo
                } else {
                    c matches TextCheck::Changed(h) && h@ == content_hash(text@)
                }),
    {
        if text.unicode_len() == 0 || str_equals(text, self.last_text.as_str()) {
            return TextCheck::Unchanged;
        }
        self.last_text = owned(text);
        let hash = ClipSyncMessage::calculate_hash(text);
        if sync.is_hash_cached(hash.as_str()) {
            TextCheck::Echo
        } else {
            TextCheck::Changed(hash)
        }
    }
}

/// What a tick does with the clipboard image.
#[derive(Debug)]
pub enum ImageStep {
    /// No image was read, or the tick ended before the image.
    Absent,
    /// The image's key is cached: it was stored or received before.
    Echo,
    /// A new image with this key (now cached): store it and sync it.
    New(String),
}

/// What the monitor does in one tick.
#[derive(Debug)]
pub enum TickPlan {
    /// The tick right after a remote write: nothing is read.
    Skip,
    /// The text's outcome, the requests that sync a changed text, and the
    /// image's outcome.
    Run { text: TextCheck, requests: Vec<(usize, SyncRequest)>, image: ImageStep },
}

/// The cache after the text step of a tick: a changed text's hash is added.
pub open spec fn cache_after_text(c: Seq<Seq<char>>, t: TextCheck) -> Seq<Seq<char>> {
    match t {
        TextCheck::Changed(h) => cache_after_push(c, h@),
        _ => c,
    }
}

/// The image step of a tick for an image of `width` x `height` pixels `rgba`
/// against cache `c`: an echo when its key is cached, else new under its key,
/// which is then cached; `after` is the cache at the end of the tick.
pub open spec fn image_step_ok(
    c: Seq<Seq<char>>,
    width: usize,
    height: usize,
    rgba: Seq<u8>,
    step: ImageStep,
    after: Seq<Seq<char>>,
) -> bool {
    let k = image_echo_key_text(width, height, rgba);
    if c.contains(k) {
        step is Echo && after == c
    } else {
        step matches ImageStep::New(key) && key@ == k && after == cache_after_push(c, k)
    }
}

/// The text read in a tick, as characters.
pub open spec fn text_view(text: Option<&str>) -> Option<Seq<char>> {
    match text {
        Some(t) => Some(t@),
        None => None,
    }
}

/// The image read in a tick: its size and its pixel bytes.
pub open spec fn image_view(image: Option<(usize, usize, &[u8])>) -> Option<(usize, usize, Seq<u8>)> {
    match image {
        Some((w, h, b)) => Some((w, h, b@)),
        None => None,
    }
}

/// The text step of a tick (see `ClipboardMonitor::check_text`): no text,
/// empty text or the last text seen changes nothing; new text is remembered
/// and is an echo when its hash is in `cache`, else a change.
pub open spec fn text_step_ok(
    text: Option<Seq<char>>,
    last: Seq<char>,
    new_last: Seq<char>,
    cache: Seq<Seq<char>>,
    c: TextCheck,
) -> bool {
    match text {
        None => c is Unchanged && new_last == last,
        Some(t) => if t.len() == 0 || t == last {
            c is Unchanged && new_last == last
        } else {
            new_last == t && if cache.contains(content_hash(t)) {
                c is Echo
            } else {
                c matches TextCheck::Changed(h) && h@ == content_hash(t)
            }
        },
    }
}

/// The sync requests of a tick: those that sync a changed text (none when
/// nothing is trusted), and none otherwise.
pub open spec fn requests_ok(
    text: Option<Seq<char>>,
    c: TextCheck,
    requests: Seq<(usize, SyncRequest)>,
    trusted: Seq<TrustedDevice>,
    ds: Seq<NetworkDevice>,
    device_id: Seq<char>,
) -> bool {
    match c {
        TextCheck::Changed(_) => match text {
            Some(t) => (trusted.len() == 0 ==> requests.len() == 0) && (trusted.len() != 0 ==> text_requests_planned(
                requests,
                trusted,
                ds,
                device_id,
                t,
            )),
            None => false,
        },
        _ => requests.len() == 0,
    }
}

/// The image step of a tick: after a text echo nothing is done; otherwise no
/// image leaves the cache as the text step left it, and an image is checked
/// against that cache (see `image_step_ok`). `after` is the final cache.
pub open spec fn image_phase_ok(
    c: TextCheck,
    image: Option<(usize, usize, Seq<u8>)>,
    c0: Seq<Seq<char>>,
    step: ImageStep,
    after: Seq<Seq<char>>,
) -> bool {
    if c is Echo {
        step is Absent && after == c0
    } else {
        match image {
            None => step is Absent && after == cache_after_text(c0, c),
            Some((w, h, b)) => image_step_ok(cache_after_text(c0, c), w, h, b, step, after),
        }
    }
}

impl ClipboardSyncManager {
    /// One tick of the clipboard monitor, given the text and image read from
    /// the clipboard (`None` when there is none) and the trusted and
    /// discovered devices. Right after a remote write the tick is skipped.
    /// Otherwise the text is checked: an echo ends the tick; a changed text
    /// is synced to the discovered trusted devices and its hash is cached.
    /// Then the image's key is checked: a cached key is an echo; a new key is
    /// cached and the image is to be stored and synced.
    pub fn plan_tick(
        &mut self,
        monitor: &mut ClipboardMonitor,
        text: Option<&str>,
        image: Option<(usize, usize, &[u8])>,
        trusted: &Vec<TrustedDevice>,
        discovered: &Vec<NetworkDevice>,
    ) -> (p: TickPlan)
        ensures
            final(self).local_update(),
            final(self).id() == old(self).id(),
            final(self).cache().len() <= HASH_CACHE_SIZE,
            !old(self).local_update() ==> p is Skip && final(self).cache() == old(self).cache()
                && final(monitor).last() == old(monitor).last(),
            old(self).local_update() ==> p is Run,
            p matches TickPlan::Run { text: c, requests, image: step } ==> text_step_ok(
                text_view(text),
                old(monitor).last(),
                final(monitor).last(),
                old(self).cache(),
                c,
            ) && requests_ok(text_view(text), c, requests@, trusted@, discovered@, old(self).id()) && image_phase_ok(
                c,
                image_view(image),
                old(self).cache(),
                step,
                final(self).cache(),
            ),
    {
        proof {
            use_type_invariant(&*self);
        }
        if self.skip_tick_after_remote_write() {
            return TickPlan::Skip;
        }
        let ghost c0 = self.cache();
        let mut requests: Vec<(usize, SyncRequest)> = Vec::new();
        let check = match text {
            None => TextCheck::Unchanged,
            Some(t) => {
                let c = monitor.check_text(t, self);
                match c {
                    TextCheck::Changed(h) => {
                        requests = text_sync_requests(self, t, self.device_id.as_str(), trusted, discovered);
                        let cached = h.clone();
                        self.add_hash_to_cache(cached);
                        TextCheck::Changed(h)
                    },
                    TextCheck::Echo => {
                        return TickPlan::Run { text: TextCheck::Echo, requests, image: ImageStep::Absent };
                    },
                    TextCheck::Unchanged => TextCheck::Unchanged,
                }
            },
        };
        assert(self.cache() == cache_after_text(c0, check));
        let step = match image {
            None => ImageStep::Absent,
            Some((w, h, b)) => {
                let key = image_echo_key(w, h, b);
                if self.is_hash_cached(key.as_str()) {
                    ImageStep::Echo
                } else {
                    let cached = key.clone();
                    self.add_hash_to_cache(cached);
                    ImageStep::New(key)
                }
            },
        };
        TickPlan::Run { text: check, requests, image: step }
    }
}

/// A number of pixels as `as u32` converts it: modulo 2^32.
pub open spec fn truncated_u32(n: usize) -> u32 {
    (n as int % 4294967296) as u32
}

/// The bytes and extension of the file that stores a clipboard image of
/// `width` x `height` RGBA pixels: its PNG encoding, or the raw pixels under
/// the extension their leading bytes suggest when the encoding fails.
pub open spec fn clipboard_image_output(width: usize, height: usize, rgba: Seq<u8>) -> (Seq<u8>, Seq<char>) {
    match png_of_rgba(truncated_u32(width), truncated_u32(height), rgba) {
        Some(png) => (png, "png"@),
        None => (rgba, image_extension(rgba)),
    }
}

/// The cache key of a clipboard image: its size and the hash of the base64
/// of its first hundred bytes.
pub open spec fn image_echo_key_text(width: usize, height: usize, rgba: Seq<u8>) -> Seq<char> {
    let preview = if rgba.len() <= 100 {
        rgba
    } else {
        rgba.subrange(0, 100)
    };
    "img_"@ + decimal(width as nat) + "_"@ + decimal(height as nat) + "_"@ + content_hash(base64_text(preview, true))
}

/// The path, relative to the app data directory, of a stored clipboard image
/// named by a time stamp and a random number.
pub open spec fn image_path_text(stamp: Seq<char>, suffix: u32, extension: Seq<char>) -> Seq<char> {
    "images/img_"@ + stamp + "_"@ + decimal(suffix as nat) + "."@ + extension
}

/// The file that stores a clipboard image: PNG when the pixels encode,
/// else the raw pixels (see `clipboard_image_output`). Pixels beyond the
/// size make the encoder panic and are left out.
pub fn clipboard_image_file(width: usize, height: usize, rgba: &[u8]) -> (r: (Vec<u8>, &'static str))
    requires
        rgba@.len() <= truncated_u32(width) as int * truncated_u32(height) as int * 4,
    ensures
        (r.0@, r.1@) == clipboard_image_output(width, height, rgba@),
        png_of_rgba(truncated_u32(width), truncated_u32(height), rgba@) is Some && rgba@.len() <= 268435456 ==> r.1@
            == "png"@ && rgba_of_image(r.0@) == Some((truncated_u32(width), truncated_u32(height), rgba@)),
{
    let w = ((width as u64) % 4294967296) as u32;
    let h = ((height as u64) % 4294967296) as u32;
    match encode_png_rgba(w, h, rgba) {
        Some(png) => (png, "png"),
        None => {
            let mut raw: Vec<u8> = Vec::new();
            let n = rgba.len();
            let mut i: usize = 0;
            while i < n
                invariant
                    n == rgba@.len(),
                    i <= n,
                    raw@ == rgba@.subrange(0, i as int),
                decreases n - i,
            {
                raw.push(rgba[i]);
                assert(raw@ =~= rgba@.subrange(0, i + 1));
                i = i + 1;
            }
            assert(raw@ =~= rgba@);
            (raw, crate::media::detect_image_extension(rgba))
        },
    }
}

/// The cache key of a clipboard image (see `image_echo_key_text`).
pub fn image_echo_key(width: usize, height: usize, rgba: &[u8]) -> (k: String)
    ensures
        k@ == image_echo_key_text(width, height, rgba@),
{
    let n = if rgba.len() <= 100 {
        rgba.len()
    } else {
        100
    };
    let mut preview: Vec<u8> = Vec::new();
    let mut i: usize = 0;
    while i < n
        invariant
            n <= rgba@.len(),
            n <= 100,
            i <= n,
            preview@ == rgba@.subrange(0, i as int),
        decreases n - i,
    {
        preview.push(rgba[i]);
        assert(preview@ =~= rgba@.subrange(0, i + 1));
        i = i + 1;
    }
    proof {
        if rgba@.len() <= 100 {
            assert(preview@ =~= rgba@);
        }
    }
    let encoded = encode_standard(preview.as_slice());
    let hash = ClipSyncMessage::calculate_hash(encoded.as_str());
    let mut key = owned("img_");
    key.append(decimal_text(width as u64).as_str());
    key.append("_");
    key.append(decimal_text(height as u64).as_str());
    key.append("_");
    key.append(hash.as_str());
    key
}

/// A new path for a stored clipboard image with the given extension, named
/// by the local time and a random number.
pub fn new_image_path(extension: &str) -> (p: String)
    ensures
        exists|stamp: String, suffix: u32| p@ == image_path_text(stamp@, suffix, extension@),
{
    let stamp = local_file_stamp();
    let suffix = random_u32();
    let mut p = owned("images/img_");
    p.append(stamp.as_str());
    p.append("_");
    p.append(decimal_text(suffix as u64).as_str());
    p.append(".");
    p.append(extension);
    assert(p@ == image_path_text(stamp@, suffix, extension@));
    p
}

/// The bytes of an image message's content, decoded from padded base64; an
/// error naming the step when the content does not decode.
pub fn decode_image_content(content: &str) -> (r: Result<Vec<u8>, String>)
    ensures
        r is Ok <==> exists|d: Seq<u8>| base64_text(d, true) == content@,
        r matches Ok(d) ==> base64_text(d@, true) == content@,
        r matches Err(e) ==> starts_with_text(e@, "Failed to decode base64 image: "@),
{
    match decode_standard(content) {
        Ok(bytes) => Ok(bytes),
        Err(e) => {
            let msg = joined("Failed to decode base64 image: ", e.as_str());
            assert(msg@.subrange(0, "Failed to decode base64 image: "@.len() as int) =~= "Failed to decode base64 image: "@);
            Err(msg)
        },
    }
}

/// The message that carries a stored clipboard image to the other devices:
/// the image file's bytes in padded base64, sent from this device.
pub fn image_sync_message(device_id: &str, image_file: &[u8]) -> (m: ClipSyncMessage)
    requires
        image_file@.len() <= usize::MAX / 2,
    ensures
        m.msg_type == ClipType::Image,
        m.content@ == base64_text(image_file@, true),
        m.hash@ == content_hash(m.content@),
        m.source_device@ == device_id@,
        m.file_name is None,
        m.file_size is None,
{
    ClipSyncMessage::new(ClipType::Image, encode_standard(image_file), owned(device_id))
}

/// How a message from another device is kept in the history.
#[derive(Debug)]
pub enum RemoteStorage {
    /// The content itself is stored.
    Content(String),
    /// The decoded image is written to a file at this path (relative to the
    /// app data directory) and the history keeps the path.
    ImageFile { bytes: Vec<u8>, relative_path: String },
}

/// How a message from another device is kept: an image whose base64 decodes
/// goes to a new image file named with the extension its bytes suggest;
/// anything else is stored as it came.
pub fn plan_remote_storage(message: &ClipSyncMessage) -> (r: RemoteStorage)
    ensures
        message.msg_type != ClipType::Image ==> (r matches RemoteStorage::Content(c) && c@ == message.content@),
        message.msg_type == ClipType::Image && !(exists|d: Seq<u8>| base64_text(d, true) == message.content@) ==> (
        r matches RemoteStorage::Content(c) && c@ == message.content@),
        message.msg_type == ClipType::Image && (exists|d: Seq<u8>| base64_text(d, true) == message.content@) ==> (
        r matches RemoteStorage::ImageFile { bytes, relative_path } && base64_text(bytes@, true)
            == message.content@ && exists|stamp: String, suffix: u32|
            relative_path@ == image_path_text(stamp@, suffix, image_extension(bytes@))),
{
    if message.msg_type == ClipType::Image {
        match decode_standard(message.content.as_str()) {
            Ok(bytes) => {
                let extension = crate::media::detect_image_extension(bytes.as_slice());
                let relative_path = new_image_path(extension);
                proof {
                    let (stamp, suffix) = choose|stamp: String, suffix: u32|
                        relative_path@ == image_path_text(stamp@, suffix, extension@);
                    assert(extension@ == image_extension(bytes@));
                    assert(relative_path@ == image_path_text(stamp@, suffix, image_extension(bytes@)));
                }
                RemoteStorage::ImageFile { bytes, relative_path }
            },
            Err(_) => RemoteStorage::Content(message.content.clone()),
        }
    } else {
        RemoteStorage::Content(message.content.clone())
    }
}

/// A discovered device answers for a trusted id when its host name or its
/// service name contains the id.
pub open spec fn answers_for(d: NetworkDevice, id: Seq<char>) -> bool {
    contains_run(d.hostname@, id) || contains_run(d.name@, id)
}

/// `r` is the index of the first discovered device that answers for `id`, or
/// `None` when none does.
pub open spec fn first_answering(ds: Seq<NetworkDevice>, id: Seq<char>, r: Option<usize>) -> bool {
    match r {
        Some(j) => j < ds.len() && answers_for(ds[j as int], id) && forall|k: int| 0 <= k < j ==> !answers_for(#[trigger] ds[k], id),
        None => forall|k: int| 0 <= k < ds.len() ==> !answers_for(#[trigger] ds[k], id),
    }
}

/// The index of the first discovered device that answers for `id`.
pub fn find_discovered(discovered: &Vec<NetworkDevice>, id: &str) -> (r: Option<usize>)
    ensures
        first_answering(discovered@, id@, r),
{
    let n = discovered.len();
    let mut j: usize = 0;
    while j < n
        invariant
            n == discovered@.len(),
            j <= n,
            forall|k: int| 0 <= k < j ==> !answers_for(#[trigger] discovered@[k], id@),
        decreases n - j,
    {
        let d = &discovered[j];
        if str_contains(d.hostname.as_str(), id) || str_contains(d.name.as_str(), id) {
            return Some(j);
        }
        j = j + 1;
    }
    None
}

/// Where each trusted device is reached for a sync: for the trusted device at
/// index `i`, the index of the first discovered device that answers for its
/// id, or `None` when it was not discovered.
pub fn sync_targets(trusted: &Vec<TrustedDevice>, discovered: &Vec<NetworkDevice>) -> (r: Vec<Option<usize>>)
    ensures
        r@.len() == trusted@.len(),
        forall|i: int| 0 <= i < trusted@.len() ==> first_answering(discovered@, trusted@[i].device_id@, #[trigger] r@[i]),
{
    let n = trusted.len();
    let mut out: Vec<Option<usize>> = Vec::new();
    let mut i: usize = 0;
    while i < n
        invariant
            n == trusted@.len(),
            i <= n,
            out@.len() == i,
            forall|a: int| 0 <= a < i ==> first_answering(discovered@, trusted@[a].device_id@, #[trigger] out@[a]),
        decreases n - i,
    {
        out.push(find_discovered(discovered, trusted[i].device_id.as_str()));
        i = i + 1;
    }
    out
}

/// The first discovered device that answers for `id` (see
/// `first_answering`, which holds of exactly one value).
pub open spec fn first_answer(ds: Seq<NetworkDevice>, id: Seq<char>) -> Option<usize> {
    choose|r: Option<usize>| first_answering(ds, id, r)
}

/// `first_answering` holds of one value only: `first_answer`.
proof fn lemma_first_answer(ds: Seq<NetworkDevice>, id: Seq<char>, r: Option<usize>)
    requires
        first_answering(ds, id, r),
    ensures
        first_answer(ds, id) == r,
{
    let c = first_answer(ds, id);
    assert(first_answering(ds, id, c));
    match (r, c) {
        (Some(a), Some(b)) => {
            if a < b {
                assert(answers_for(ds[a as int], id));
            } else if b < a {
                assert(answers_for(ds[b as int], id));
            }
        },
        (Some(a), None) => {
            assert(answers_for(ds[a as int], id));
        },
        (None, Some(b)) => {
            assert(answers_for(ds[b as int], id));
        },
        (None, None) => {},
    }
}

/// The discovered devices that a sync goes to, one for each trusted device
/// that was discovered, in the order of the trusted devices.
pub open spec fn sync_plan(trusted: Seq<TrustedDevice>, ds: Seq<NetworkDevice>) -> Seq<usize>
    decreases trusted.len(),
{
    if trusted.len() == 0 {
        Seq::empty()
    } else {
        let rest = sync_plan(trusted.drop_last(), ds);
        match first_answer(ds, trusted.last().device_id@) {
            Some(j) => rest.push(j),
            None => rest,
        }
    }
}

/// A sync request from `device_id` that carries `content` as one text message.
pub open spec fn is_text_sync_request(req: SyncRequest, device_id: Seq<char>, content: Seq<char>) -> bool {
    &&& req.device_id@ == device_id
    &&& req.messages@.len() == 1
    &&& req.messages@[0].msg_type == ClipType::Text
    &&& req.messages@[0].content@ == content
    &&& req.messages@[0].hash@ == content_hash(content)
    &&& req.messages@[0].source_device@ == device_id
    &&& req.messages@[0].file_name is None
    &&& req.messages@[0].file_size is None
}

/// The requests that sync a text are exactly one per discovered trusted
/// device, in trusted order, each to that device and carrying the text.
pub open spec fn text_requests_planned(
    r: Seq<(usize, SyncRequest)>,
    trusted: Seq<TrustedDevice>,
    ds: Seq<NetworkDevice>,
    device_id: Seq<char>,
    content: Seq<char>,
) -> bool {
    &&& r.map_values(|p: (usize, SyncRequest)| p.0) == sync_plan(trusted, ds)
    &&& forall|k: int| 0 <= k < r.len() ==> is_text_sync_request(#[trigger] r[k].1, device_id, content)
}

/// The requests that sync `content` from this device: none when its hash is
/// cached (it came from another device) or nothing is trusted; else one per
/// trusted device that was discovered, to the first discovered device that
/// answers for it, carrying the text as a message from `device_id`.
pub fn text_sync_requests(
    mgr: &ClipboardSyncManager,
    content: &str,
    device_id: &str,
    trusted: &Vec<TrustedDevice>,
    discovered: &Vec<NetworkDevice>,
) -> (r: Vec<(usize, SyncRequest)>)
    ensures
        mgr.cache().contains(content_hash(content@)) || trusted@.len() == 0 ==> r@.len() == 0,
        !mgr.cache().contains(content_hash(content@)) && trusted@.len() != 0 ==> text_requests_planned(
            r@,
            trusted@,
            discovered@,
            device_id@,
            content@,
        ),
{
    let mut out: Vec<(usize, SyncRequest)> = Vec::new();
    let hash = ClipSyncMessage::calculate_hash(content);
    if mgr.is_hash_cached(hash.as_str()) || trusted.len() == 0 {
        return out;
    }
    let n = trusted.len();
    let mut i: usize = 0;
    proof {
        assert(trusted@.subrange(0, 0) =~= Seq::<TrustedDevice>::empty());
        assert(out@.map_values(|p: (usize, SyncRequest)| p.0) =~= Seq::<usize>::empty());
    }
    while i < n
        invariant
            n == trusted@.len(),
            i <= n,
            out@.map_values(|p: (usize, SyncRequest)| p.0) == sync_plan(trusted@.subrange(0, i as int), discovered@),
            forall|k: int| 0 <= k < out@.len() ==> is_text_sync_request(#[trigger] out@[k].1, device_id@, content@),
        decreases n - i,
    {
        let target = find_discovered(discovered, trusted[i].device_id.as_str());
        proof {
            lemma_first_answer(discovered@, trusted@[i as int].device_id@, target);
            let pre = trusted@.subrange(0, i as int);
            let post = trusted@.subrange(0, i + 1);
            assert(post.drop_last() =~= pre);
            assert(post.last() == trusted@[i as int]);
        }
        match target {
            Some(j) => {
                let message = ClipSyncMessage::new(ClipType::Text, owned(content), owned(device_id));
                let mut messages: Vec<ClipSyncMessage> = Vec::new();
                messages.push(message);
                let req = SyncRequest { device_id: owned(device_id), messages };
                let ghost before = out@;
                out.push((j, req));
                proof {
                    assert(out@.map_values(|p: (usize, SyncRequest)| p.0) =~= before.map_values(
                        |p: (usize, SyncRequest)| p.0,
                    ).push(j));
                    assert(is_text_sync_request(out@[out@.len() - 1].1, device_id@, content@));
                }
            },
            None => {},
        }
        i = i + 1;
    }
    proof {
        assert(trusted@.subrange(0, n as int) =~= trusted@);
    }
    out
}

/// The cache never grows beyond `HASH_CACHE_SIZE` entries.
pub proof fn law_cache_bounded(c: Seq<Seq<char>>, h: Seq<char>)
    requires
        c.len() <= HASH_CACHE_SIZE,
    ensures
        cache_after_push(c, h).len() <= HASH_CACHE_SIZE,
{
}

/// The cache keeps the most recent hashes in arrival order: after a push it is
/// the newest entries of the old cache followed by the new hash.
pub proof fn law_cache_keeps_newest(c: Seq<Seq<char>>, h: Seq<char>)
    requires
        c.len() <= HASH_CACHE_SIZE,
    ensures
        cache_after_push(c, h).last() == h,
        cache_after_push(c, h).drop_last() == c.subrange(c.len() - (cache_after_push(c, h).len() - 1), c.len() as int),
{
    let p = c.push(h);
    if p.len() > HASH_CACHE_SIZE {
        assert(cache_after_push(c, h).drop_last() =~= c.subrange(c.len() - (cache_after_push(c, h).len() - 1), c.len() as int));
    } else {
        assert(cache_after_push(c, h).drop_last() =~= c.subrange(0, c.len() as int));
    }
}

/// A remote text that was accepted is not sent back: once its hash is in the
/// cache, the monitor sees the text as an echo, and the same message offered
/// again is refused as a duplicate.
pub proof fn law_accepted_text_is_not_echoed(c: Seq<Seq<char>>, text: Seq<char>)
    requires
        c.len() <= HASH_CACHE_SIZE,
    ensures
        cache_after_push(c, content_hash(text)).contains(content_hash(text)),
{
    let after = cache_after_push(c, content_hash(text));
    assert(after[after.len() - 1] == content_hash(text));
}

/// An image sent in a sync message arrives intact: the content that
/// `image_sync_message` writes for an image file always decodes, and the
/// bytes that `decode_image_content` gives for it are that file.
pub proof fn law_image_message_round_trip(image_file: Seq<u8>, received: Seq<u8>)
    ensures
        exists|d: Seq<u8>| base64_text(d, true) == base64_text(image_file, true),
        base64_text(received, true) == base64_text(image_file, true) ==> received == image_file,
{
    if base64_text(received, true) == base64_text(image_file, true) {
        law_padded_base64_decodes_uniquely(received, image_file);
    }
}

/// Clearing the cache forgets every echo: afterwards no hash counts as cached,
/// so content skipped before is synced again when it next changes.
pub proof fn law_cleared_cache_forgets_echoes(h: Seq<char>)
    ensures
        !Seq::<Seq<char>>::empty().contains(h),
{
}

} // verus!
