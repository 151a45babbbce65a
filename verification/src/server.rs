//! The decisions of the built-in HTTP sync service: its port configuration,
//! the answers it gives to sync and file-transfer requests, the cleaning of
//! received file names, and the search for a free port.

use vstd::prelude::*;
use crate::encoding::{b64_char, base64_text, decode_standard, law_padded_base64_decodes_uniquely};
use crate::clipboard::decode_image_content;
use crate::protocol::{ClipSyncMessage, content_hash};
use crate::imaging::{RgbaImage, decode_image_rgba, rgba_of_image};
use crate::platform::{random_port_in, utc_now_millis};
use crate::text::{char_width, joined, lemma_utf8_len_push, owned, push_char, signed_decimal, signed_decimal_text, utf8_len, utf8_width};

verus! {

/// The port tried first when none is configured.
pub const DEFAULT_BASE_PORT: u16 = 9527;

/// How many ports above the base port the search may use.
pub const DEFAULT_MAX_ATTEMPTS: u16 = 100;

/// The lowest port that may be configured.
pub const MIN_CONFIG_PORT: u16 = 1024;

/// The largest file accepted by a transfer (500 MiB).
pub const MAX_FILE_SIZE: u64 = 524288000;

/// The longest stored file name, in bytes.
pub const MAX_FILE_NAME_BYTES: usize = 100;

/// Where the server listens.
#[derive(Debug, Clone, Copy)]
pub struct ServerConfig {
    pub base_port: u16,
    pub max_attempts: u16,
}

/// The `base_port` entry of a config file's text as `serde_json` reads it:
/// `None` when the text is not JSON, `Some(None)` when it holds no such
/// unsigned number.
pub uninterp spec fn json_base_port(text: Seq<char>) -> Option<Option<u64>>;

/// `serde_json::from_str::<Value>` followed by `get("base_port")` and
/// `Value::as_u64`; the result is named by `json_base_port`.
#[verifier::external_body]
fn stored_base_port(text: &str) -> (r: Option<Option<u64>>)
    ensures
        r == json_base_port(text@),
{
    match serde_json::from_str::<serde_json::Value>(text) {
        Ok(v) => Some(v.get("base_port").and_then(serde_json::Value::as_u64)),
        Err(_) => None,
    }
}

/// The base port that a stored setting yields: the stored number taken
/// modulo 2^16 (as `as u16` does), unless it is below 1024; 9527 when nothing
/// is stored.
pub open spec fn base_port_from_stored(stored: Option<u64>) -> u16 {
    let p: u16 = match stored {
        Some(v) => (v % 65536) as u16,
        None => DEFAULT_BASE_PORT,
    };
    if p >= MIN_CONFIG_PORT {
        p
    } else {
        DEFAULT_BASE_PORT
    }
}

impl Default for ServerConfig {
    fn default() -> (c: Self)
        ensures
            c.base_port == DEFAULT_BASE_PORT,
            c.max_attempts == DEFAULT_MAX_ATTEMPTS,
    {
        ServerConfig { base_port: DEFAULT_BASE_PORT, max_attempts: DEFAULT_MAX_ATTEMPTS }
    }
}

impl ServerConfig {
    /// The configuration for the `base_port` value read from the config file
    /// (`None` when the file has no such number).
    pub fn from_stored(stored: Option<u64>) -> (c: Self)
        ensures
            c.base_port == base_port_from_stored(stored),
            c.max_attempts == DEFAULT_MAX_ATTEMPTS,
    {
        let p: u16 = match stored {
            Some(v) => (v % 65536) as u16,
            None => DEFAULT_BASE_PORT,
        };
        let base_port = if p >= MIN_CONFIG_PORT {
            p
        } else {
            DEFAULT_BASE_PORT
        };
        ServerConfig { base_port, max_attempts: DEFAULT_MAX_ATTEMPTS }
    }

    /// The configuration a config file's text gives: the `base_port` number
    /// it holds, as `from_stored` reads it; the defaults when there is no
    /// file or its text is not JSON.
    pub fn config_from_text(text: Option<&str>) -> (c: Self)
        ensures
            c.max_attempts == DEFAULT_MAX_ATTEMPTS,
            text is None ==> c.base_port == DEFAULT_BASE_PORT,
            text matches Some(t) ==> c.base_port == match json_base_port(t@) {
                None => DEFAULT_BASE_PORT,
                Some(stored) => base_port_from_stored(stored),
            },
    {
        match text {
            None => ServerConfig::default(),
            Some(t) => match stored_base_port(t) {
                None => ServerConfig::default(),
                Some(stored) => ServerConfig::from_stored(stored),
            },
        }
    }

    /// Sets the base port; a port below 1024 is ignored.
    pub fn set_base_port(&mut self, port: u16)
        ensures
            final(self).base_port == (if port >= MIN_CONFIG_PORT { port } else { old(self).base_port }),
            final(self).max_attempts == old(self).max_attempts,
    {
        if port >= MIN_CONFIG_PORT {
            self.base_port = port;
        }
    }
}

/// Whether the server runs, and where.
#[derive(Debug, Clone)]
pub struct ServerStatus {
    pub is_running: bool,
    pub port: Option<u16>,
    pub started_at: Option<String>,
}

/// The answer to `GET /ping`.
#[derive(Debug, Clone)]
pub struct PingResponse {
    pub device_id: String,
    pub status: String,
    pub port: u16,
    pub timestamp: String,
}

/// The body of `POST /pair-request`.
#[derive(Debug, Clone)]
pub struct PairRequest {
    pub device_id: String,
    pub device_name: String,
}

/// The answer to `POST /pair-request`.
#[derive(Debug, Clone)]
pub struct PairResponse {
    pub status: String,
    pub message: String,
}

/// The answer to `POST /sync`.
#[derive(Debug, Clone)]
pub struct SyncResponse {
    pub status: String,
    pub received_count: usize,
    pub errors: Vec<String>,
}

/// The body of `POST /file-transfer`.
#[derive(Debug, Clone)]
pub struct FileTransferData {
    pub device_id: String,
    pub filename: String,
    /// The file's bytes in padded standard base64.
    pub file_data: String,
}

/// The answer to `POST /file-transfer`.
#[derive(Debug, Clone)]
pub struct FileTransferResponse {
    pub status: String,
    pub file_id: String,
    pub file_path: String,
    pub file_size: u64,
}

/// A character that may not stand in a stored file name.
pub open spec fn is_forbidden_in_name(c: char) -> bool {
    c == '/' || c == '\\' || c == ':' || c == '*' || c == '?' || c == '"' || c == '<' || c == '>' || c == '|'
}

/// A control character (general category Cc: U+0000-U+001F, U+007F-U+009F).
pub open spec fn is_control_char(c: char) -> bool {
    (c as u32) <= 0x1F || (0x7F <= (c as u32) && (c as u32) <= 0x9F)
}

/// The character that stands for `c` in a stored file name.
pub open spec fn name_char(c: char) -> char {
    if is_forbidden_in_name(c) || is_control_char(c) {
        '_'
    } else {
        c
    }
}

/// The longest prefix of `t` whose UTF-8 encoding takes at most `budget`
/// bytes.
pub open spec fn fit_prefix(t: Seq<char>, budget: int) -> Seq<char>
    decreases t.len(),
{
    if t.len() == 0 {
        t
    } else if utf8_width(t[0]) <= budget {
        seq![t[0]] + fit_prefix(t.drop_first(), budget - utf8_width(t[0]))
    } else {
        Seq::<char>::empty()
    }
}

/// The name with every forbidden or control character replaced by `_`.
pub open spec fn replaced_name(name: Seq<char>) -> Seq<char> {
    name.map_values(|c: char| name_char(c))
}

/// The stored form of a received file name: forbidden and control characters
/// replaced by `_`, then cut to its first 100 bytes.
pub open spec fn sanitized_name(name: Seq<char>) -> Seq<char> {
    fit_prefix(replaced_name(name), MAX_FILE_NAME_BYTES as int)
}

/// Cutting the replaced name to 100 bytes falls on a character boundary
/// (`String::truncate` panics otherwise).
pub open spec fn cut_on_boundary(name: Seq<char>) -> bool {
    utf8_len(replaced_name(name)) <= MAX_FILE_NAME_BYTES || utf8_len(sanitized_name(name)) == MAX_FILE_NAME_BYTES
}

/// A prefix that fits is no longer than the whole, and takes no more bytes
/// than the budget; when it is shorter than the whole, the whole takes more.
proof fn lemma_fit_prefix(t: Seq<char>, budget: int)
    requires
        budget >= 0,
    ensures
        fit_prefix(t, budget).len() <= t.len(),
        utf8_len(fit_prefix(t, budget)) <= budget,
        fit_prefix(t, budget).len() == t.len() <==> utf8_len(t) <= budget,
    decreases t.len(),
{
    if t.len() == 0 {
    } else if utf8_width(t[0]) <= budget {
        lemma_fit_prefix(t.drop_first(), budget - utf8_width(t[0]));
        let rest = fit_prefix(t.drop_first(), budget - utf8_width(t[0]));
        assert((seq![t[0]] + rest).drop_first() =~= rest);
        assert((seq![t[0]] + rest)[0] == t[0]);
    } else {
        assert(utf8_len(Seq::<char>::empty()) == 0);
    }
}

/// The replaced name and the byte count of its 100-byte cut, character by
/// character.
fn clean_name(filename: &str) -> (r: (String, bool))
    ensures
        r.0@ == sanitized_name(filename@),
        r.1 == cut_on_boundary(filename@),
{
    let n = filename.unicode_len();
    let ghost t = replaced_name(filename@);
    let mut kept = String::new();
    let mut budget: usize = MAX_FILE_NAME_BYTES;
    let mut stopped = false;
    let mut i: usize = 0;
    proof {
        assert(t.subrange(0, 0) =~= Seq::<char>::empty());
        assert(t.skip(0) =~= t);
    }
    while i < n
        invariant
            n == filename@.len(),
            t == replaced_name(filename@),
            t.len() == n,
            i <= n,
            budget <= MAX_FILE_NAME_BYTES,
            !stopped ==> sanitized_name(filename@) == kept@ + fit_prefix(t.skip(i as int), budget as int),
            !stopped ==> kept@ == t.subrange(0, i as int),
            !stopped ==> utf8_len(kept@) + budget == MAX_FILE_NAME_BYTES,
            stopped ==> sanitized_name(filename@) == kept@,
            stopped ==> utf8_len(t) > MAX_FILE_NAME_BYTES,
            stopped ==> utf8_len(kept@) + budget == MAX_FILE_NAME_BYTES,
        decreases n - i,
    {
        let c = filename.get_char(i);
        let d = if c == '/' || c == '\\' || c == ':' || c == '*' || c == '?' || c == '"' || c == '<' || c == '>'
            || c == '|' || (c as u32) <= 0x1F || (0x7F <= (c as u32) && (c as u32) <= 0x9F) {
            '_'
        } else {
            c
        };
        assert(d == t[i as int]);
        if !stopped {
            let w = char_width(d);
            let ghost rest = t.skip(i as int);
            assert(rest[0] == d);
            assert(rest.drop_first() =~= t.skip(i + 1));
            if w <= budget {
                let ghost before = kept@;
                push_char(&mut kept, d);
                proof {
                    lemma_utf8_len_push(before, d);
                    assert(kept@ + fit_prefix(t.skip(i + 1), budget - w) =~= before + (seq![d] + fit_prefix(
                        t.skip(i + 1),
                        budget - w,
                    )));
                    assert(t.subrange(0, i + 1) =~= before.push(d));
                }
                budget = budget - w;
            } else {
                proof {
                    assert(kept@ + Seq::<char>::empty() =~= kept@);
                    lemma_fit_prefix(rest, budget as int);
                    assert(t =~= kept@ + rest);
                    lemma_utf8_len_concat(kept@, rest);
                }
                stopped = true;
            }
        }
        i = i + 1;
    }
    proof {
        if !stopped {
            assert(t.skip(n as int) =~= Seq::<char>::empty());
            assert(kept@ + Seq::<char>::empty() =~= kept@);
            assert(t.subrange(0, n as int) =~= t);
        }
    }
    let fits = !stopped || budget == 0;
    (kept, fits)
}

/// The UTF-8 length of a concatenation is the sum.
proof fn lemma_utf8_len_concat(a: Seq<char>, b: Seq<char>)
    ensures
        utf8_len(a + b) == utf8_len(a) + utf8_len(b),
    decreases a.len(),
{
    if a.len() == 0 {
        assert(a + b =~= b);
    } else {
        assert((a + b).drop_first() =~= a.drop_first() + b);
        assert((a + b)[0] == a[0]);
        lemma_utf8_len_concat(a.drop_first(), b);
    }
}

/// The stored form of a received file name: forbidden characters
/// (`/ \ : * ? " < > |`) and control characters become `_`, and the result is
/// cut to 100 bytes. A cut that would split a character is left out (the cut
/// panics there); `filename_cut_fits` tells.
pub fn sanitize_filename(filename: &str) -> (s: String)
    requires
        cut_on_boundary(filename@),
    ensures
        s@ == sanitized_name(filename@),
{
    clean_name(filename).0
}

/// Whether `sanitize_filename` may be called on `filename`.
pub fn filename_cut_fits(filename: &str) -> (b: bool)
    ensures
        b == cut_on_boundary(filename@),
{
    clean_name(filename).1
}

/// A white-space character (Unicode `White_Space`, as `char::is_whitespace`
/// and `str::trim` use it).
pub open spec fn is_white_space(c: char) -> bool {
    let v = c as u32;
    (0x09 <= v && v <= 0x0D) || v == 0x20 || v == 0x85 || v == 0xA0 || v == 0x1680 || (0x2000 <= v && v <= 0x200A)
        || v == 0x2028 || v == 0x2029 || v == 0x202F || v == 0x205F || v == 0x3000
}

/// The text without its leading white space.
pub open spec fn trim_start(s: Seq<char>) -> Seq<char>
    decreases s.len(),
{
    if s.len() > 0 && is_white_space(s[0]) {
        trim_start(s.drop_first())
    } else {
        s
    }
}

/// The text without its trailing white space.
pub open spec fn trim_end(s: Seq<char>) -> Seq<char>
    decreases s.len(),
{
    if s.len() > 0 && is_white_space(s.last()) {
        trim_end(s.drop_last())
    } else {
        s
    }
}

/// A character of the padded standard base64 alphabet.
pub open spec fn is_base64_char(c: char) -> bool {
    ('A' <= c && c <= 'Z') || ('a' <= c && c <= 'z') || ('0' <= c && c <= '9') || c == '+' || c == '/' || c == '='
}

/// Whether a text is valid base64: with its surrounding white space trimmed,
/// it is the padded standard base64 of some bytes.
pub open spec fn looks_like_base64(s: Seq<char>) -> bool {
    exists|d: Seq<u8>| #[trigger] base64_text(d, true) == trim_end(trim_start(s))
}

fn white_space(c: char) -> (b: bool)
    ensures
        b == is_white_space(c),
{
    let v = c as u32;
    (0x09 <= v && v <= 0x0D) || v == 0x20 || v == 0x85 || v == 0xA0 || v == 0x1680 || (0x2000 <= v && v <= 0x200A)
        || v == 0x2028 || v == 0x2029 || v == 0x202F || v == 0x205F || v == 0x3000
}

/// Whether the text, trimmed of white space, is valid padded base64 (see
/// `looks_like_base64`).
pub fn is_base64(s: &str) -> (b: bool)
    ensures
        b == looks_like_base64(s@),
{
    let n = s.unicode_len();
    let mut lo: usize = 0;
    proof {
        assert(s@.subrange(0, n as int) =~= s@);
    }
    while lo < n && white_space(s.get_char(lo))
        invariant
            n == s@.len(),
            lo <= n,
            trim_start(s@) == trim_start(s@.subrange(lo as int, n as int)),
        decreases n - lo,
    {
        proof {
            let r = s@.subrange(lo as int, n as int);
            assert(r.drop_first() =~= s@.subrange(lo + 1, n as int));
        }
        lo = lo + 1;
    }
    let ghost front = s@.subrange(lo as int, n as int);
    proof {
        assert(trim_start(front) == front);
    }
    let mut hi: usize = n;
    while hi > lo && white_space(s.get_char(hi - 1))
        invariant
            n == s@.len(),
            lo <= hi <= n,
            front == s@.subrange(lo as int, n as int),
            trim_end(front) == trim_end(s@.subrange(lo as int, hi as int)),
        decreases hi - lo,
    {
        proof {
            let r = s@.subrange(lo as int, hi as int);
            assert(r.drop_last() =~= s@.subrange(lo as int, hi - 1));
            assert(r.last() == s@[hi - 1]);
        }
        hi = hi - 1;
    }
    let ghost t = s@.subrange(lo as int, hi as int);
    proof {
        if t.len() > 0 {
            assert(t.last() == s@[hi - 1]);
        }
        assert(trim_end(t) == t);
    }
    let trimmed = s.substring_char(lo, hi);
    decode_standard(trimmed).is_ok()
}

/// Whether `s` begins with `prefix`.
pub open spec fn starts_with_text(s: Seq<char>, prefix: Seq<char>) -> bool {
    prefix.len() <= s.len() && s.subrange(0, prefix.len() as int) == prefix
}

/// The pixels of an image message: its content is decoded from base64, then
/// as an image file. Each failure is an error naming the step.
pub fn decode_clipboard_image(content: &str) -> (r: Result<RgbaImage, String>)
    ensures
        r matches Ok(img) ==> exists|d: Seq<u8>|
            base64_text(d, true) == content@ && rgba_of_image(d) == Some((img.width, img.height, img.pixels@)),
        !(exists|d: Seq<u8>| base64_text(d, true) == content@) ==> (r matches Err(e) && starts_with_text(
            e@,
            "Failed to decode base64 image: "@,
        )),
        r matches Err(e) ==> ((exists|d: Seq<u8>| base64_text(d, true) == content@) ==> starts_with_text(
            e@,
            "Failed to decode image: "@,
        ) && exists|d: Seq<u8>| base64_text(d, true) == content@ && rgba_of_image(d) is None),
{
    match decode_image_content(content) {
        Err(e) => Err(e),
        Ok(bytes) => match decode_image_rgba(bytes.as_slice()) {
            Ok(img) => Ok(img),
            Err(e) => {
                let msg = joined("Failed to decode image: ", e.as_str());
                assert(msg@.subrange(0, "Failed to decode image: "@.len() as int) =~= "Failed to decode image: "@);
                Err(msg)
            },
        },
    }
}

/// The name under which a received file message is saved: its file name, or
/// `clipboard_file.txt`.
pub open spec fn file_message_name(name: Option<String>) -> Seq<char> {
    match name {
        Some(n) => n@,
        None => "clipboard_file.txt"@,
    }
}

/// The name and bytes of a file message: content that looks like base64 is
/// decoded (an error when that fails), other content is taken as UTF-8 text.
pub fn file_message_payload(message: &ClipSyncMessage) -> (r: Result<(String, Vec<u8>), String>)
    ensures
        r matches Ok((name, bytes)) ==> name@ == file_message_name(message.file_name) && (if looks_like_base64(
            message.content@,
        ) {
            base64_text(bytes@, true) == message.content@
        } else {
            bytes@ == vstd::utf8::encode_utf8(message.content@)
        }),
        looks_like_base64(message.content@) && (exists|d: Seq<u8>| base64_text(d, true) == message.content@) ==> r is Ok,
        !looks_like_base64(message.content@) ==> r is Ok,
        r matches Err(e) ==> looks_like_base64(message.content@) && !(exists|d: Seq<u8>|
            base64_text(d, true) == message.content@) && starts_with_text(e@, "Failed to decode base64 content: "@),
{
    let name = match &message.file_name {
        Some(n) => n.clone(),
        None => owned("clipboard_file.txt"),
    };
    if is_base64(message.content.as_str()) {
        match decode_standard(message.content.as_str()) {
            Ok(bytes) => Ok((name, bytes)),
            Err(e) => {
                let msg = joined("Failed to decode base64 content: ", e.as_str());
                assert(msg@.subrange(0, "Failed to decode base64 content: "@.len() as int)
                    =~= "Failed to decode base64 content: "@);
                Err(msg)
            },
        }
    } else {
        Ok((name, message.content.as_str().as_bytes_vec()))
    }
}

/// What is known of the sender's trust when a sync request arrives.
#[derive(Debug)]
pub enum TrustLookup {
    /// The trusted-device table answered.
    Known(bool),
    /// The table's lock failed, with this message.
    LockFailed(String),
    /// The server has no trusted-device table.
    NoManager,
}

/// The errors recorded before the trust answer is known.
pub open spec fn lookup_errors(lookup: TrustLookup) -> Seq<Seq<char>> {
    match lookup {
        TrustLookup::Known(_) => Seq::<Seq<char>>::empty(),
        TrustLookup::LockFailed(e) => seq!["Failed to check trust status: "@ + e@],
        TrustLookup::NoManager => seq!["Trusted devices manager not available"@],
    }
}

/// The error recorded for an untrusted sender.
pub open spec fn untrusted_device_error(device_id: Seq<char>) -> Seq<char> {
    "Device "@ + device_id + " is not trusted"@
}

/// The views of a list of strings.
pub open spec fn texts(v: Seq<String>) -> Seq<Seq<char>> {
    v.map_values(|s: String| s@)
}

/// The overall status of a sync answer: `success` without errors, `partial`
/// with some.
pub open spec fn sync_status(errors: Seq<Seq<char>>) -> Seq<char> {
    if errors.len() == 0 {
        "success"@
    } else {
        "partial"@
    }
}

/// The running account of a sync request: how many messages were applied and
/// what went wrong.
pub struct SyncTally {
    received_count: usize,
    errors: Vec<String>,
}

/// The answer to a sync request from a sender that is not trusted (or whose
/// trust could not be read): `rejected`, nothing received, with the errors
/// met so far and one naming the device.
pub fn rejected_sync_response(device_id: &str, lookup: TrustLookup) -> (r: SyncResponse)
    ensures
        r.status@ == "rejected"@,
        r.received_count == 0,
        texts(r.errors@) == lookup_errors(lookup).push(untrusted_device_error(device_id@)),
{
    let ghost l = lookup;
    let mut errors: Vec<String> = Vec::new();
    match lookup {
        TrustLookup::Known(_) => {},
        TrustLookup::LockFailed(e) => {
            errors.push(joined("Failed to check trust status: ", e.as_str()));
        },
        TrustLookup::NoManager => {
            errors.push(owned("Trusted devices manager not available"));
        },
    }
    let mut msg = joined("Device ", device_id);
    msg.append(" is not trusted");
    errors.push(msg);
    assert(texts(errors@) =~= lookup_errors(l).push(untrusted_device_error(device_id@)));
    SyncResponse { status: owned("rejected"), received_count: 0, errors }
}

/// The start of a sync request: a trusted sender opens an empty tally; any
/// other answer is the rejection.
pub fn begin_sync(device_id: &str, lookup: TrustLookup) -> (r: Result<SyncTally, SyncResponse>)
    ensures
        lookup == TrustLookup::Known(true) ==> (r matches Ok(t) && t.count() == 0 && t.error_texts() == Seq::<
            Seq<char>,
        >::empty()),
        lookup != TrustLookup::Known(true) ==> (r matches Err(resp) && resp.status@ == "rejected"@
            && resp.received_count == 0 && texts(resp.errors@) == lookup_errors(lookup).push(
            untrusted_device_error(device_id@),
        )),
{
    match lookup {
        TrustLookup::Known(true) => {
            let t = SyncTally { received_count: 0, errors: Vec::new() };
            assert(t.error_texts() =~= Seq::<Seq<char>>::empty());
            Ok(t)
        },
        _ => Err(rejected_sync_response(device_id, lookup)),
    }
}

impl SyncTally {
    /// How many messages were applied.
    pub closed spec fn count(&self) -> nat {
        self.received_count as nat
    }

    /// The errors recorded so far, in order.
    pub closed spec fn error_texts(&self) -> Seq<Seq<char>> {
        texts(self.errors@)
    }

    /// How many messages were applied.
    pub fn received_count(&self) -> (n: usize)
        ensures
            n == self.count(),
    {
        self.received_count
    }

    /// The errors recorded so far.
    pub fn errors(&self) -> (e: &Vec<String>)
        ensures
            texts(e@) == self.error_texts(),
    {
        &self.errors
    }

    fn record_error(&mut self, e: String)
        ensures
            final(self).error_texts() == old(self).error_texts().push(e@),
            final(self).count() == old(self).count(),
    {
        self.errors.push(e);
        assert(self.error_texts() =~= old(self).error_texts().push(e@));
    }

    /// Checks one message of the request. A message that could not be parsed,
    /// whose hash does not match its content, or that arrives when there is no
    /// clipboard manager is recorded as an error; a good message is handed back
    /// to be applied.
    pub fn check_message(&mut self, parsed: Result<ClipSyncMessage, String>, manager_available: bool) -> (r: Option<
        ClipSyncMessage,
    >)
        ensures
            final(self).count() == old(self).count(),
            parsed matches Err(e) ==> r is None && final(self).error_texts() == old(self).error_texts().push(
                "Failed to parse message: "@ + e@,
            ),
            parsed matches Ok(m) ==> (m.hash@ != content_hash(m.content@) ==> r is None
                && final(self).error_texts() == old(self).error_texts().push(
                "Hash verification failed for message from "@ + m.source_device@,
            )),
            parsed matches Ok(m) ==> (m.hash@ == content_hash(m.content@) && !manager_available ==> r is None
                && final(self).error_texts() == old(self).error_texts().push(
                "Clipboard sync manager not available"@,
            )),
            parsed matches Ok(m) ==> (m.hash@ == content_hash(m.content@) && manager_available ==> r == Some(m)
                && final(self).error_texts() == old(self).error_texts()),
    {
        match parsed {
            Err(e) => {
                self.record_error(joined("Failed to parse message: ", e.as_str()));
                None
            },
            Ok(m) => {
                if !m.verify_hash() {
                    self.record_error(joined("Hash verification failed for message from ", m.source_device.as_str()));
                    None
                } else if !manager_available {
                    self.record_error(owned("Clipboard sync manager not available"));
                    None
                } else {
                    Some(m)
                }
            },
        }
    }

    /// Records the outcome of applying a message to the clipboard.
    pub fn record_applied(&mut self, outcome: Result<(), String>)
        requires
            old(self).count() < usize::MAX,
        ensures
            outcome is Ok ==> final(self).count() == old(self).count() + 1 && final(self).error_texts() == old(
                self,
            ).error_texts(),
            outcome matches Err(e) ==> final(self).count() == old(self).count() && final(self).error_texts() == old(
                self,
            ).error_texts().push("Failed to update clipboard: "@ + e@),
    {
        match outcome {
            Ok(()) => {
                self.received_count = self.received_count + 1;
            },
            Err(e) => {
                self.record_error(joined("Failed to update clipboard: ", e.as_str()));
            },
        }
    }

    /// The answer: `success` when nothing went wrong, else `partial`, with the
    /// count and the errors.
    pub fn finish(self) -> (r: SyncResponse)
        ensures
            r.status@ == sync_status(self.error_texts()),
            r.received_count == self.count(),
            texts(r.errors@) == self.error_texts(),
    {
        let status = if self.errors.len() == 0 {
            owned("success")
        } else {
            owned("partial")
        };
        SyncResponse { status, received_count: self.received_count, errors: self.errors }
    }
}

/// The answer to a file transfer that failed (bad base64 or a failed write).
pub fn transfer_error_response() -> (r: FileTransferResponse)
    ensures
        r.status@ == "error"@,
        r.file_id@.len() == 0,
        r.file_path@.len() == 0,
        r.file_size == 0,
{
    FileTransferResponse { status: owned("error"), file_id: String::new(), file_path: String::new(), file_size: 0 }
}

/// The answer to a file transfer from an untrusted device.
pub fn transfer_rejected_response() -> (r: FileTransferResponse)
    ensures
        r.status@ == "rejected"@,
        r.file_id@.len() == 0,
        r.file_path@.len() == 0,
        r.file_size == 0,
{
    FileTransferResponse { status: owned("rejected"), file_id: String::new(), file_path: String::new(), file_size: 0 }
}

/// The answer to a file transfer that was stored.
pub fn transfer_success_response(file_id: String, file_path: String, file_size: u64) -> (r: FileTransferResponse)
    ensures
        r.status@ == "success"@,
        r.file_id == file_id,
        r.file_path == file_path,
        r.file_size == file_size,
{
    FileTransferResponse { status: owned("success"), file_id, file_path, file_size }
}

/// The first steps of a file transfer: the base64 content is decoded (an
/// error answer when it is not base64), then the sender must be trusted (a
/// rejection when it is not), then the file may not exceed `MAX_FILE_SIZE`
/// bytes (an error answer when it does); otherwise the decoded bytes come
/// back to be stored.
pub fn admit_transfer(data: &FileTransferData, sender_trusted: bool) -> (r: Result<Vec<u8>, FileTransferResponse>)
    ensures
        r matches Ok(bytes) ==> sender_trusted && base64_text(bytes@, true) == data.file_data@ && bytes@.len()
            <= MAX_FILE_SIZE,
        (exists|d: Seq<u8>| base64_text(d, true) == data.file_data@ && d.len() <= MAX_FILE_SIZE) && sender_trusted
            ==> r is Ok,
        (exists|d: Seq<u8>| base64_text(d, true) == data.file_data@) && !sender_trusted ==> (r matches Err(resp)
            && resp.status@ == "rejected"@ && resp.file_id@.len() == 0 && resp.file_path@.len() == 0
            && resp.file_size == 0),
        (exists|d: Seq<u8>| base64_text(d, true) == data.file_data@ && d.len() > MAX_FILE_SIZE) && sender_trusted
            ==> (r matches Err(resp) && resp.status@ == "error"@ && resp.file_id@.len() == 0
            && resp.file_path@.len() == 0 && resp.file_size == 0),
        !(exists|d: Seq<u8>| base64_text(d, true) == data.file_data@) ==> (r matches Err(resp) && resp.status@
            == "error"@ && resp.file_id@.len() == 0 && resp.file_path@.len() == 0 && resp.file_size == 0),
{
    match decode_standard(data.file_data.as_str()) {
        Err(_) => Err(transfer_error_response()),
        Ok(bytes) => {
            proof {
                assert forall|d: Seq<u8>| #[trigger] base64_text(d, true) == data.file_data@ implies d == bytes@ by {
                    law_padded_base64_decodes_uniquely(d, bytes@);
                }
            }
            if !sender_trusted {
                Err(transfer_rejected_response())
            } else if bytes.len() as u64 > MAX_FILE_SIZE {
                Err(transfer_error_response())
            } else {
                Ok(bytes)
            }
        },
    }
}

/// The id under which a received file is stored: the arrival time in
/// milliseconds, `_`, and the cleaned file name.
pub fn transfer_file_id(timestamp_ms: i64, filename: &str) -> (id: String)
    requires
        cut_on_boundary(filename@),
    ensures
        id@ == signed_decimal(timestamp_ms as int) + "_"@ + sanitized_name(filename@),
{
    let mut id = signed_decimal_text(timestamp_ms);
    id.append("_");
    let safe = sanitize_filename(filename);
    id.append(safe.as_str());
    id
}

/// The id under which a file arriving now is stored, with the arrival time
/// in milliseconds that it carries (see `transfer_file_id`).
pub fn arrival_file_id(filename: &str) -> (r: (i64, String))
    requires
        cut_on_boundary(filename@),
    ensures
        r.1@ == signed_decimal(r.0 as int) + "_"@ + sanitized_name(filename@),
{
    let now = utc_now_millis();
    (now, transfer_file_id(now, filename))
}

/// What the port search asks the caller to do next.
#[derive(Debug, Clone, Copy, PartialEq, Eq, Structural)]
pub enum PortProbe {
    /// Try to bind this port.
    Try(u16),
    /// Every port of the range was tried: there is no free port.
    Exhausted,
    /// `base + max_attempts` does not fit in a port number; computing the
    /// range overflows (the search panics there).
    RangeOverflow,
}

/// The set of ports in a vector.
pub open spec fn port_set(v: Seq<u16>) -> Set<u16> {
    Set::new(|p: u16| v.contains(p))
}

/// The ports `low..high`.
pub open spec fn port_range(low: int, high: int) -> Set<u16> {
    Set::new(|p: u16| low <= p && p < high)
}

/// The search for a free port: first the base port, then up to
/// `max_attempts` random draws from `base..base + max_attempts` (a draw that
/// repeats an earlier draw is skipped but still counts), then the ports of
/// that range in order, leaving out those already drawn.
pub struct PortSearch {
    base: u16,
    max_attempts: u16,
    started: bool,
    random_left: u16,
    next_seq: u32,
    drawn: Vec<u16>,
    probed: Ghost<Set<u16>>,
}

fn has_port(v: &Vec<u16>, p: u16) -> (b: bool)
    ensures
        b == v@.contains(p),
{
    let n = v.len();
    let mut i: usize = 0;
    while i < n
        invariant
            n == v@.len(),
            i <= n,
            forall|k: int| 0 <= k < i ==> v@[k] != p,
        decreases n - i,
    {
        if v[i] == p {
            return true;
        }
        i = i + 1;
    }
    false
}

impl PortSearch {
    /// The search's bookkeeping is consistent: the ports handed out after the
    /// base are exactly the random draws and the ports passed in order.
    pub closed spec fn wf(&self) -> bool {
        &&& self.random_left <= self.max_attempts
        &&& self.base as int + self.max_attempts as int <= 65535 ==> {
            &&& self.base <= self.next_seq <= self.base + self.max_attempts
            &&& self.random_left > 0 ==> self.next_seq == self.base
            &&& self.probed@ == port_set(self.drawn@) + port_range(self.base as int, self.next_seq as int)
            &&& forall|p: u16| #[trigger] self.drawn@.contains(p) ==> self.base <= p < self.base + self.max_attempts
        }
        &&& !self.started ==> self.probed@ == Set::<u16>::empty()
    }

    /// The port tried first.
    pub closed spec fn base_port(&self) -> u16 {
        self.base
    }

    /// How many ports above the base the search may use.
    pub closed spec fn attempts(&self) -> u16 {
        self.max_attempts
    }

    /// Whether the base port was handed out already.
    pub closed spec fn base_tried(&self) -> bool {
        self.started
    }

    /// The ports handed out after the base port.
    pub closed spec fn probed(&self) -> Set<u16> {
        self.probed@
    }

    /// A search that starts at `base_port`.
    pub fn new(base_port: u16, max_attempts: u16) -> (s: Self)
        ensures
            s.base_port() == base_port,
            s.attempts() == max_attempts,
            !s.base_tried(),
            s.probed() == Set::<u16>::empty(),
            s.wf(),
    {
        let s = PortSearch {
            base: base_port,
            max_attempts,
            started: false,
            random_left: max_attempts,
            next_seq: base_port as u32,
            drawn: Vec::new(),
            probed: Ghost(Set::empty()),
        };
        proof {
            assert(port_set(s.drawn@) + port_range(base_port as int, base_port as int) =~= Set::<u16>::empty());
        }
        s
    }

    /// The next port to try, after the previous one could not be bound. The
    /// base port comes first; afterwards every port handed out lies in
    /// `base..base + max_attempts` and was not handed out before, and the
    /// search is exhausted only once every port of that range was handed out.
    pub fn next_candidate(&mut self) -> (r: PortProbe)
        requires
            old(self).wf(),
        ensures
            final(self).wf(),
            final(self).base_port() == old(self).base_port(),
            final(self).attempts() == old(self).attempts(),
            final(self).base_tried(),
            !old(self).base_tried() ==> r == PortProbe::Try(old(self).base_port()) && final(self).probed() == old(self).probed(),
            old(self).base_tried() && old(self).base_port() + old(self).attempts() > 65535
                ==> r == PortProbe::RangeOverflow && final(self).probed() == old(self).probed(),
            old(self).base_tried() && old(self).base_port() + old(self).attempts() <= 65535 ==> match r {
                PortProbe::Try(p) => old(self).base_port() <= p < old(self).base_port() + old(self).attempts()
                    && !old(self).probed().contains(p) && final(self).probed() == old(self).probed().insert(p),
                PortProbe::Exhausted => final(self).probed() == old(self).probed()
                    && forall|q: u16| old(self).base_port() <= q < old(self).base_port() + old(self).attempts()
                        ==> #[trigger] final(self).probed().contains(q),
                PortProbe::RangeOverflow => false,
            },
    {
        if !self.started {
            self.started = true;
            return PortProbe::Try(self.base);
        }
        let end: u32 = self.base as u32 + self.max_attempts as u32;
        if end > 65535 {
            return PortProbe::RangeOverflow;
        }
        let high = end as u16;
        while self.random_left > 0
            invariant
                self.base as int + self.max_attempts as int <= 65535,
                high == self.base + self.max_attempts,
                self.base == old(self).base,
                self.max_attempts == old(self).max_attempts,
                self.started,
                old(self).started,
                self.random_left <= self.max_attempts,
                self.base <= self.next_seq <= high,
                self.random_left > 0 ==> self.next_seq == self.base,
                self.probed@ == old(self).probed@,
                self.probed@ == port_set(self.drawn@) + port_range(self.base as int, self.next_seq as int),
                forall|p: u16| #[trigger] self.drawn@.contains(p) ==> self.base <= p < high,
            decreases self.random_left,
        {
            self.random_left = self.random_left - 1;
            let p = random_port_in(self.base, high);
            if !has_port(&self.drawn, p) {
                let ghost before = self.drawn@;
                self.drawn.push(p);
                proof {
                    assert forall|q: u16| #[trigger] self.drawn@.contains(q) == (before.contains(q) || q == p) by {
                        if before.contains(q) {
                            let k = choose|k: int| 0 <= k < before.len() && before[k] == q;
                            assert(self.drawn@[k] == q);
                        }
                        if q == p {
                            assert(self.drawn@[before.len() as int] == p);
                        }
                        if self.drawn@.contains(q) {
                            let k = choose|k: int| 0 <= k < self.drawn@.len() && self.drawn@[k] == q;
                            if k < before.len() {
                                assert(before[k] == q);
                            }
                        }
                    }
                    assert(port_range(self.base as int, self.next_seq as int) =~= Set::<u16>::empty());
                    assert(!self.probed@.contains(p));
                    self.probed@ = self.probed@.insert(p);
                    assert(self.probed@ =~= port_set(self.drawn@) + port_range(self.base as int, self.next_seq as int));
                }
                return PortProbe::Try(p);
            }
        }
        while self.next_seq < end
            invariant
                self.base as int + self.max_attempts as int <= 65535,
                end == self.base + self.max_attempts,
                self.base == old(self).base,
                self.max_attempts == old(self).max_attempts,
                self.started,
                old(self).started,
                self.random_left == 0,
                self.base <= self.next_seq <= end,
                self.probed@ == old(self).probed@,
                self.probed@ == port_set(self.drawn@) + port_range(self.base as int, self.next_seq as int),
                forall|p: u16| #[trigger] self.drawn@.contains(p) ==> self.base <= p < end,
            decreases end - self.next_seq,
        {
            let p = self.next_seq as u16;
            let ghost before = self.probed@;
            self.next_seq = self.next_seq + 1;
            if !has_port(&self.drawn, p) {
                proof {
                    assert(!before.contains(p));
                    self.probed@ = self.probed@.insert(p);
                    assert(self.probed@ =~= port_set(self.drawn@) + port_range(self.base as int, self.next_seq as int));
                }
                return PortProbe::Try(p);
            } else {
                proof {
                    assert(port_set(self.drawn@).contains(p));
                    assert(self.probed@ =~= port_set(self.drawn@) + port_range(self.base as int, self.next_seq as int));
                }
            }
        }
        proof {
            assert forall|q: u16| self.base <= q < self.base + self.max_attempts implies #[trigger] self.probed@.contains(q) by {
                assert(port_range(self.base as int, self.next_seq as int).contains(q));
            }
        }
        PortProbe::Exhausted
    }
}

/// A prefix that fits is a prefix.
proof fn lemma_fit_prefix_is_prefix(t: Seq<char>, budget: int)
    ensures
        fit_prefix(t, budget) == t.subrange(0, fit_prefix(t, budget).len() as int),
    decreases t.len(),
{
    if t.len() > 0 && utf8_width(t[0]) <= budget {
        let rest = fit_prefix(t.drop_first(), budget - utf8_width(t[0]));
        lemma_fit_prefix_is_prefix(t.drop_first(), budget - utf8_width(t[0]));
        lemma_fit_prefix(t.drop_first(), budget - utf8_width(t[0]));
        assert forall|i: int| 0 <= i < rest.len() implies #[trigger] rest[i] == t[i + 1] by {
            assert(rest[i] == t.drop_first().subrange(0, rest.len() as int)[i]);
        }
        assert(seq![t[0]] + rest =~= t.subrange(0, rest.len() as int + 1));
    } else if t.len() > 0 {
        assert(Seq::<char>::empty() =~= t.subrange(0, 0));
    }
}

/// A stored file name holds no forbidden or control character and takes at
/// most 100 bytes.
pub proof fn law_sanitized_name_is_safe(name: Seq<char>)
    ensures
        forall|i: int| 0 <= i < sanitized_name(name).len() ==> !is_forbidden_in_name(#[trigger] sanitized_name(name)[i])
            && !is_control_char(sanitized_name(name)[i]),
        utf8_len(sanitized_name(name)) <= MAX_FILE_NAME_BYTES,
{
    let t = replaced_name(name);
    lemma_fit_prefix(t, MAX_FILE_NAME_BYTES as int);
    lemma_fit_prefix_is_prefix(t, MAX_FILE_NAME_BYTES as int);
    assert forall|i: int| 0 <= i < sanitized_name(name).len() implies !is_forbidden_in_name(
        #[trigger] sanitized_name(name)[i],
    ) && !is_control_char(sanitized_name(name)[i]) by {
        assert(sanitized_name(name)[i] == t[i]);
        assert(t[i] == name_char(name[i]));
    }
}

/// Replacing characters never makes a name longer in bytes: a replaced
/// character becomes `_`, which takes one byte.
proof fn lemma_replaced_not_longer(name: Seq<char>)
    ensures
        utf8_len(replaced_name(name)) <= utf8_len(name),
    decreases name.len(),
{
    if name.len() > 0 {
        let t = replaced_name(name);
        assert(t.drop_first() =~= replaced_name(name.drop_first()));
        assert(t[0] == name_char(name[0]));
        assert(utf8_width('_') == 1);
        assert(utf8_width(name[0]) >= 1);
        lemma_replaced_not_longer(name.drop_first());
    }
}

/// Cleaning a received file name replaces exactly `/ \ : * ? " < > |` and
/// the control characters (U+0000-U+001F and U+007F-U+009F) by `_`, and keeps
/// every other character, whatever its code point, at its position. The name
/// is only cut when it takes more than 100 bytes: a name that fits keeps all
/// its characters.
pub proof fn law_sanitize_replaces_only_dangerous_characters(name: Seq<char>)
    ensures
        sanitized_name(name).len() <= name.len(),
        utf8_len(name) <= 100 ==> sanitized_name(name).len() == name.len(),
        forall|i: int| 0 <= i < sanitized_name(name).len() ==> #[trigger] sanitized_name(name)[i] == (if name[i]
            == '/' || name[i] == '\\' || name[i] == ':' || name[i] == '*' || name[i] == '?' || name[i] == '"'
            || name[i] == '<' || name[i] == '>' || name[i] == '|' || (name[i] as u32) <= 0x1F || (0x7F <= (
        name[i] as u32) && (name[i] as u32) <= 0x9F) {
            '_'
        } else {
            name[i]
        }),
{
    let t = replaced_name(name);
    lemma_fit_prefix(t, 100);
    lemma_fit_prefix_is_prefix(t, 100);
    lemma_replaced_not_longer(name);
    let s = sanitized_name(name);
    assert forall|i: int| 0 <= i < s.len() implies #[trigger] s[i] == (if name[i] == '/' || name[i] == '\\'
        || name[i] == ':' || name[i] == '*' || name[i] == '?' || name[i] == '"' || name[i] == '<' || name[i]
        == '>' || name[i] == '|' || (name[i] as u32) <= 0x1F || (0x7F <= (name[i] as u32) && (name[i] as u32)
        <= 0x9F) {
        '_'
    } else {
        name[i]
    }) by {
        assert(s[i] == t[i]);
        assert(t[i] == name_char(name[i]));
    }
}

/// A stored base port is kept, taken modulo 2^16 as `as u16` takes it,
/// whenever that is at least 1024; a smaller one, or none, gives 9527.
pub proof fn law_stored_base_port_is_kept(v: u64)
    ensures
        v % 65536 >= 1024 ==> base_port_from_stored(Some(v)) == v % 65536,
        v % 65536 < 1024 ==> base_port_from_stored(Some(v)) == 9527,
        base_port_from_stored(None) == 9527,
{
}

/// Cleaning a stored file name again changes nothing.
pub proof fn law_sanitize_idempotent(name: Seq<char>)
    ensures
        sanitized_name(sanitized_name(name)) == sanitized_name(name),
{
    let s = sanitized_name(name);
    law_sanitized_name_is_safe(name);
    assert(replaced_name(s) =~= s) by {
        assert forall|i: int| 0 <= i < s.len() implies #[trigger] replaced_name(s)[i] == s[i] by {
            assert(!is_forbidden_in_name(s[i]) && !is_control_char(s[i]));
        }
    }
    lemma_fit_prefix(s, MAX_FILE_NAME_BYTES as int);
    lemma_fit_prefix_is_prefix(s, MAX_FILE_NAME_BYTES as int);
    assert(fit_prefix(s, MAX_FILE_NAME_BYTES as int) =~= s);
}

/// Facts on the padded base64 text: its characters are base64 characters of
/// one byte each, and its length is a multiple of four.
proof fn lemma_base64_text_shape(d: Seq<u8>)
    ensures
        forall|i: int| 0 <= i < base64_text(d, true).len() ==> is_base64_char(#[trigger] base64_text(d, true)[i])
            && (base64_text(d, true)[i] as u32) <= 0x7F,
        base64_text(d, true).len() % 4 == 0,
    decreases d.len(),
{
    let t = base64_text(d, true);
    if d.len() >= 3 {
        lemma_base64_text_shape(d.subrange(3, d.len() as int));
    }
    assert forall|v: int| 0 <= v < 64 implies is_base64_char(#[trigger] b64_char(v)) && (b64_char(v) as u32) <= 0x7F by {
    }
    assert forall|i: int| 0 <= i < t.len() implies is_base64_char(#[trigger] t[i]) && (t[i] as u32) <= 0x7F by {
        if d.len() >= 3 {
            let a = d[0] as int;
            let b = d[1] as int;
            let c = d[2] as int;
            if i >= 4 {
                assert(t[i] == base64_text(d.subrange(3, d.len() as int), true)[i - 4]);
            } else {
                assert(0 <= a / 4 < 64 && 0 <= (a % 4) * 16 + b / 16 < 64 && 0 <= (b % 16) * 4 + c / 64 < 64 && 0 <= c % 64 < 64);
            }
        } else if d.len() == 2 {
            let a = d[0] as int;
            let b = d[1] as int;
            assert(0 <= a / 4 < 64 && 0 <= (a % 4) * 16 + b / 16 < 64 && 0 <= (b % 16) * 4 < 64);
        } else if d.len() == 1 {
            let a = d[0] as int;
            assert(0 <= a / 4 < 64 && 0 <= (a % 4) * 16 < 64);
        }
    }
}

/// Every padded base64 text passes the base64 check.
pub proof fn law_base64_text_looks_like_base64(d: Seq<u8>)
    ensures
        looks_like_base64(base64_text(d, true)),
{
    let t = base64_text(d, true);
    lemma_base64_text_shape(d);
    if t.len() > 0 {
        assert(is_base64_char(t[0]) && !is_white_space(t[0]));
        assert(is_base64_char(t.last()) && !is_white_space(t.last()));
    }
    assert(trim_start(t) == t);
    assert(trim_end(t) == t);
    assert(base64_text(d, true) == trim_end(trim_start(t)));
}

/// A configured base port is never below 1024.
pub proof fn law_config_port_floor(stored: Option<u64>, old_port: u16, port: u16)
    requires
        old_port >= MIN_CONFIG_PORT,
    ensures
        base_port_from_stored(stored) >= MIN_CONFIG_PORT,
        (if port >= MIN_CONFIG_PORT { port } else { old_port }) >= MIN_CONFIG_PORT,
{
}

} // verus!
