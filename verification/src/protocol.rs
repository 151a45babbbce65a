//! The clipboard sync message protocol: content kinds, messages with a SHA-256
//! content hash, and heartbeats.

use vstd::prelude::*;
use sha2::Digest;
use crate::platform::unix_millis_now;
use crate::text::{owned, str_equals};

verus! {

/// The SHA-256 digest of a byte string (named, not restated here).
pub uninterp spec fn sha256_digest(data: Seq<u8>) -> Seq<u8>;

/// Unicode lower-casing of a string as `str::to_lowercase` performs it.
pub uninterp spec fn unicode_lowercase(s: Seq<char>) -> Seq<char>;

/// `sha2::Sha256::digest`: the result is the SHA-256 digest of the input, which
/// has 32 bytes (the output size `U32` of `Sha256`).
#[verifier::external_body]
fn sha256_of(data: &[u8]) -> (d: Vec<u8>)
    ensures
        d@ == sha256_digest(data@),
        d@.len() == 32,
{
    sha2::Sha256::digest(data).to_vec()
}

/// One lower-case hexadecimal digit for a value below 16.
pub open spec fn hex_digit(v: int) -> char {
    if v < 10 {
        (48 + v) as char
    } else {
        (87 + v) as char
    }
}

/// Lower-case hexadecimal text of a byte string, two digits per byte, high
/// nibble first.
pub open spec fn hex_lower(data: Seq<u8>) -> Seq<char>
    decreases data.len(),
{
    if data.len() == 0 {
        seq![]
    } else {
        seq![hex_digit(data[0] as int / 16), hex_digit(data[0] as int % 16)] + hex_lower(data.drop_first())
    }
}

/// `hex::encode`: each byte becomes two characters of `0123456789abcdef`, the
/// high nibble first.
#[verifier::external_body]
fn hex_encode(data: &[u8]) -> (s: String)
    ensures
        s@ == hex_lower(data@),
{
    hex::encode(data)
}

/// A character lower-cased the ASCII way: `A-Z` become `a-z`, others stay.
pub open spec fn ascii_lower_char(c: char) -> char {
    if 'A' <= c && c <= 'Z' {
        ((c as u32) + 32) as char
    } else {
        c
    }
}

/// Whether every character of `s` is ASCII.
pub open spec fn is_ascii_text(s: Seq<char>) -> bool {
    forall|i: int| 0 <= i < s.len() ==> (#[trigger] s[i] as u32) < 128
}

/// A text lower-cased the ASCII way.
pub open spec fn ascii_lowercase(s: Seq<char>) -> Seq<char> {
    s.map_values(|c: char| ascii_lower_char(c))
}

/// `str::to_lowercase`; the result is named by `unicode_lowercase`. On ASCII
/// text, Unicode lower-casing maps `A-Z` to `a-z` and keeps every other
/// character, so there the result is the ASCII lower-casing.
#[verifier::external_body]
fn to_lowercase(s: &str) -> (r: String)
    ensures
        r@ == unicode_lowercase(s@),
        is_ascii_text(s@) ==> r@ == ascii_lowercase(s@),
{
    s.to_lowercase()
}

/// Hex text has two characters per byte.
pub proof fn lemma_hex_lower_len(data: Seq<u8>)
    ensures
        hex_lower(data).len() == 2 * data.len(),
    decreases data.len(),
{
    if data.len() > 0 {
        lemma_hex_lower_len(data.drop_first());
    }
}

/// The content hash of a text: lower-case hex of the SHA-256 digest of its
/// UTF-8 bytes.
pub open spec fn content_hash(content: Seq<char>) -> Seq<char> {
    hex_lower(sha256_digest(vstd::utf8::encode_utf8(content)))
}

/// The default age after which a message counts as expired: five minutes.
pub const DEFAULT_MAX_AGE_MS: i64 = 300000;

/// Kind of clipboard content.
#[derive(Debug, Clone, Copy, PartialEq, Eq, Structural)]
pub enum ClipType {
    /// Plain text.
    Text,
    /// An image, carried as base64.
    Image,
    /// A file.
    File,
}

/// The kind that a lower-cased type name stands for: `"image"`, `"file"`, and
/// text for everything else.
pub open spec fn clip_type_of_lowercase(name: Seq<char>) -> ClipType {
    if name == "image"@ {
        ClipType::Image
    } else if name == "file"@ {
        ClipType::File
    } else {
        ClipType::Text
    }
}

/// The wire name of a kind.
pub open spec fn clip_type_name(t: ClipType) -> Seq<char> {
    match t {
        ClipType::Text => "text"@,
        ClipType::Image => "image"@,
        ClipType::File => "file"@,
    }
}

impl ClipType {
    /// Parses a kind from its name, ignoring case; unknown names are text.
    pub fn from_str(s: &str) -> (t: ClipType)
        ensures
            t == clip_type_of_lowercase(unicode_lowercase(s@)),
            is_ascii_text(s@) ==> t == clip_type_of_lowercase(ascii_lowercase(s@)),
    {
        let lower = to_lowercase(s);
        ClipType::from_lowercase(lower.as_str())
    }

    /// The kind for an already lower-cased name.
    pub fn from_lowercase(name: &str) -> (t: ClipType)
        ensures
            t == clip_type_of_lowercase(name@),
    {
        if str_equals(name, "image") {
            ClipType::Image
        } else if str_equals(name, "file") {
            ClipType::File
        } else {
            ClipType::Text
        }
    }

    /// The wire name of this kind.
    pub fn as_str(&self) -> (s: &'static str)
        ensures
            s@ == clip_type_name(*self),
    {
        match self {
            ClipType::Text => "text",
            ClipType::Image => "image",
            ClipType::File => "file",
        }
    }
}

/// A clipboard sync message.
#[derive(Debug, Clone)]
pub struct ClipSyncMessage {
    /// Kind of the content (`type` on the wire).
    pub msg_type: ClipType,
    /// Text, or the base64 of an image.
    pub content: String,
    /// SHA-256 of the content, lower-case hex.
    pub hash: String,
    /// Creation time, milliseconds since the Unix epoch.
    pub timestamp: i64,
    /// Id of the sending device.
    pub source_device: String,
    /// File name, for files.
    pub file_name: Option<String>,
    /// File size in bytes, for files.
    pub file_size: Option<u64>,
}

/// A copy of an optional string.
fn copy_opt_string(o: &Option<String>) -> (r: Option<String>)
    ensures
        r == *o,
{
    match o {
        Some(s) => Some(s.clone()),
        None => None,
    }
}

impl ClipSyncMessage {
    /// Whether this message is expired at clock reading `now`: its age
    /// `now - timestamp` exceeds `max_age_ms`, five minutes when `None`.
    pub open spec fn expired_at(&self, now: i64, max_age_ms: Option<i64>) -> bool {
        now - self.timestamp > match max_age_ms {
            Some(m) => m as int,
            None => DEFAULT_MAX_AGE_MS as int,
        }
    }

    /// A new message for `content`, hashed, stamped with the current time.
    pub fn new(msg_type: ClipType, content: String, source_device: String) -> (m: ClipSyncMessage)
        ensures
            m.msg_type == msg_type,
            m.content@ == content@,
            m.hash@ == content_hash(content@),
            m.source_device@ == source_device@,
            m.file_name is None,
            m.file_size is None,
    {
        let timestamp = unix_millis_now();
        let hash = Self::calculate_hash(content.as_str());
        ClipSyncMessage {
            msg_type,
            content,
            hash,
            timestamp,
            source_device,
            file_name: None,
            file_size: None,
        }
    }

    /// A new file message carrying the file's name and size.
    pub fn new_file(content: String, file_name: String, file_size: u64, source_device: String) -> (m: ClipSyncMessage)
        ensures
            m.msg_type == ClipType::File,
            m.content@ == content@,
            m.hash@ == content_hash(content@),
            m.source_device@ == source_device@,
            m.file_name == Some(file_name),
            m.file_size == Some(file_size),
    {
        let timestamp = unix_millis_now();
        let hash = Self::calculate_hash(content.as_str());
        ClipSyncMessage {
            msg_type: ClipType::File,
            content,
            hash,
            timestamp,
            source_device,
            file_name: Some(file_name),
            file_size: Some(file_size),
        }
    }

    /// SHA-256 of the content's UTF-8 bytes as 64 lower-case hex characters.
    pub fn calculate_hash(content: &str) -> (h: String)
        ensures
            h@ == content_hash(content@),
            h@.len() == 64,
    {
        let digest = sha256_of(content.as_bytes());
        let h = hex_encode(digest.as_slice());
        proof {
            lemma_hex_lower_len(digest@);
        }
        h
    }

    /// Whether the stored hash is the hash of the content.
    pub fn verify_hash(&self) -> (ok: bool)
        ensures
            ok == (self.hash@ == content_hash(self.content@)),
    {
        let calculated = Self::calculate_hash(self.content.as_str());
        calculated == self.hash
    }

    /// Size of the content in bytes (UTF-8).
    pub fn content_size(&self) -> (n: usize)
        ensures
            n == vstd::utf8::encode_utf8(self.content@).len() as usize,
    {
        self.content.as_str().len()
    }

    /// Whether the message is expired at clock reading `now`.
    pub fn is_expired_at(&self, now: i64, max_age_ms: Option<i64>) -> (e: bool)
        ensures
            e == self.expired_at(now, max_age_ms),
    {
        let max_age: i64 = match max_age_ms {
            Some(m) => m,
            None => DEFAULT_MAX_AGE_MS,
        };
        let age: i128 = (now as i128) - (self.timestamp as i128);
        age > (max_age as i128)
    }

    /// Whether the message is older than `max_age_ms` (five minutes when `None`)
    /// by the current clock.
    pub fn is_expired(&self, max_age_ms: Option<i64>) -> (e: bool)
        ensures
            exists|now: i64| e == self.expired_at(now, max_age_ms),
    {
        let now = unix_millis_now();
        self.is_expired_at(now, max_age_ms)
    }

    /// A copy of this message stamped with the current time.
    pub fn clone_with_new_timestamp(&self) -> (m: ClipSyncMessage)
        ensures
            m.msg_type == self.msg_type,
            m.content@ == self.content@,
            m.hash@ == self.hash@,
            m.source_device@ == self.source_device@,
            m.file_name == self.file_name,
            m.file_size == self.file_size,
    {
        ClipSyncMessage {
            msg_type: self.msg_type,
            content: self.content.clone(),
            hash: self.hash.clone(),
            timestamp: unix_millis_now(),
            source_device: self.source_device.clone(),
            file_name: copy_opt_string(&self.file_name),
            file_size: self.file_size,
        }
    }
}

/// A batch of messages from one device.
#[derive(Debug, Clone)]
pub struct SyncRequest {
    pub device_id: String,
    pub messages: Vec<ClipSyncMessage>,
}

/// The answer to a batch.
#[derive(Debug, Clone)]
pub struct SyncResponse {
    pub status: String,
    pub received_count: usize,
    pub messages: Vec<ClipSyncMessage>,
}

/// A liveness message.
#[derive(Debug, Clone)]
pub struct HeartbeatMessage {
    pub device_id: String,
    pub device_name: String,
    pub timestamp: i64,
    pub status: String,
}

impl HeartbeatMessage {
    /// A heartbeat for this device with status `online`, stamped now.
    pub fn new(device_id: String, device_name: String) -> (h: HeartbeatMessage)
        ensures
            h.device_id@ == device_id@,
            h.device_name@ == device_name@,
            h.status@ == "online"@,
    {
        HeartbeatMessage {
            device_id,
            device_name,
            timestamp: unix_millis_now(),
            status: owned("online"),
        }
    }
}

/// Parsing the wire name of a kind gives the kind back.
pub proof fn law_clip_type_name_round_trip(t: ClipType)
    ensures
        clip_type_of_lowercase(clip_type_name(t)) == t,
{
    reveal_strlit("text");
    reveal_strlit("image");
    reveal_strlit("file");
    assert("text"@ != "image"@ && "text"@ != "file"@ && "image"@ != "file"@) by {
        assert("text"@[0] != "image"@[0]);
        assert("text"@[0] != "file"@[0]);
        assert("image"@[0] != "file"@[0]);
    }
}

/// Parsing a kind's wire name with `from_str` gives the kind back: the name
/// is ASCII, and lower-casing leaves it as it is.
pub proof fn law_clip_type_from_str_round_trip(t: ClipType)
    ensures
        is_ascii_text(clip_type_name(t)),
        clip_type_of_lowercase(ascii_lowercase(clip_type_name(t))) == t,
{
    reveal_strlit("text");
    reveal_strlit("image");
    reveal_strlit("file");
    let n = clip_type_name(t);
    assert(ascii_lowercase(n) =~= n);
    law_clip_type_name_round_trip(t);
}

/// On ASCII text `from_str` ignores case: lower-casing keeps the text ASCII
/// and lower-casing again changes nothing, so a name and its lower-cased form
/// parse to the same kind; a name other than `image` and `file` (in any case)
/// is text.
pub proof fn law_clip_type_ignores_ascii_case(s: Seq<char>)
    requires
        is_ascii_text(s),
    ensures
        is_ascii_text(ascii_lowercase(s)),
        ascii_lowercase(ascii_lowercase(s)) == ascii_lowercase(s),
        clip_type_of_lowercase(ascii_lowercase(ascii_lowercase(s))) == clip_type_of_lowercase(ascii_lowercase(s)),
        ascii_lowercase(s) != "image"@ && ascii_lowercase(s) != "file"@ ==> clip_type_of_lowercase(ascii_lowercase(s))
            == ClipType::Text,
{
    let l = ascii_lowercase(s);
    assert forall|i: int| 0 <= i < l.len() implies (#[trigger] l[i] as u32) < 128 by {
        assert(l[i] == ascii_lower_char(s[i]));
    }
    assert(ascii_lowercase(l) =~= l) by {
        assert forall|i: int| 0 <= i < l.len() implies #[trigger] ascii_lowercase(l)[i] == l[i] by {
            assert(l[i] == ascii_lower_char(s[i]));
        }
    }
}

/// A message keeps a matching hash when it is stamped anew: a copy with the
/// same content and hash still verifies.
pub proof fn law_restamped_message_verifies(m: ClipSyncMessage, copy: ClipSyncMessage)
    requires
        m.hash@ == content_hash(m.content@),
        copy.content@ == m.content@,
        copy.hash@ == m.hash@,
    ensures
        copy.hash@ == content_hash(copy.content@),
{
}

/// A message is expired at a clock reading exactly when its age, the reading
/// minus its timestamp, exceeds the given limit, or five minutes (300000 ms)
/// when no limit is given.
pub proof fn law_expired_when_older_than_limit(m: ClipSyncMessage, now: i64, max_age_ms: Option<i64>)
    ensures
        m.expired_at(now, max_age_ms) == (now - m.timestamp > match max_age_ms {
            Some(limit) => limit as int,
            None => 300000int,
        }),
{
}

} // verus!
