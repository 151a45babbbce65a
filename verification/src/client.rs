//! What the HTTP client sends to other devices and what it reads back.

use vstd::prelude::*;
use crate::ClipboardItem;
use crate::encoding::{base64_text, encode_standard, law_padded_base64_decodes_uniquely};
use crate::server::FileTransferData;
use crate::text::{decimal, decimal_text, owned};

verus! {

/// The file name that `Path::file_name` gives for a path, converted to text;
/// `None` when the path has no final component or it is not UTF-8.
pub uninterp spec fn path_file_name(path: Seq<char>) -> Option<Seq<char>>;

/// `std::path::Path::file_name` followed by `to_str`; the result is named by
/// `path_file_name`.
#[verifier::external_body]
fn file_name_of(path: &str) -> (r: Option<String>)
    ensures
        match r {
            Some(n) => path_file_name(path@) == Some(n@),
            None => path_file_name(path@) is None,
        },
{
    std::path::Path::new(path).file_name().and_then(|n| n.to_str()).map(|n| n.to_string())
}

/// The answer to a ping.
#[derive(Debug, Clone)]
pub struct PingResponse {
    pub device_id: String,
    pub status: String,
    pub port: u16,
    pub timestamp: String,
}

/// A pairing request sent to another device.
#[derive(Debug, Clone)]
pub struct PairRequest {
    pub device_id: String,
    pub device_name: String,
}

/// The answer to a pairing request.
#[derive(Debug, Clone)]
pub struct PairResponse {
    pub status: String,
    pub message: String,
}

/// History entries sent to another device.
#[derive(Debug, Clone)]
pub struct SyncRequest {
    pub device_id: String,
    pub items: Vec<ClipboardItem>,
}

/// The answer to a sync of history entries.
#[derive(Debug, Clone)]
pub struct SyncResponse {
    pub status: String,
    pub received_count: usize,
}

/// The answer to a file upload.
#[derive(Debug, Clone)]
pub struct FileTransferResponse {
    pub status: String,
    pub file_id: String,
    pub file_path: String,
    pub file_size: u64,
}

/// Uploads one file to another device, reporting progress to a callback of
/// type `C` if one is set.
pub struct FileUploader<C> {
    device_id: String,
    file_path: String,
    progress_callback: Option<C>,
}

/// The URL of an endpoint of another device: `http://ip:port` and the path.
pub open spec fn endpoint_text(ip: Seq<char>, port: u16, path: Seq<char>) -> Seq<char> {
    "http://"@ + ip + ":"@ + decimal(port as nat) + path
}

/// The URL of an endpoint of another device.
pub fn endpoint_url(ip: &str, port: u16, path: &str) -> (u: String)
    ensures
        u@ == endpoint_text(ip@, port, path@),
{
    let mut u = owned("http://");
    u.append(ip);
    u.append(":");
    u.append(decimal_text(port as u64).as_str());
    u.append(path);
    u
}

/// The name under which a file is uploaded: the last component of its path,
/// or `unknown`.
pub open spec fn upload_name(path: Seq<char>) -> Seq<char> {
    match path_file_name(path) {
        Some(n) => n,
        None => "unknown"@,
    }
}

impl<C> FileUploader<C> {
    /// The sending device.
    pub closed spec fn sender(&self) -> Seq<char> {
        self.device_id@
    }

    /// The path of the file to send.
    pub closed spec fn path(&self) -> Seq<char> {
        self.file_path@
    }

    /// Whether progress is reported.
    pub closed spec fn reports_progress(&self) -> bool {
        self.progress_callback is Some
    }

    /// An uploader for `file_path` from `device_id`, without progress reports.
    pub fn new(device_id: String, file_path: String) -> (u: Self)
        ensures
            u.sender() == device_id@,
            u.path() == file_path@,
            !u.reports_progress(),
    {
        FileUploader { device_id, file_path, progress_callback: None }
    }

    /// The same uploader, reporting progress to `callback`.
    pub fn with_progress(self, callback: C) -> (u: Self)
        ensures
            u.sender() == self.sender(),
            u.path() == self.path(),
            u.reports_progress(),
    {
        FileUploader { device_id: self.device_id, file_path: self.file_path, progress_callback: Some(callback) }
    }

    /// The path of the file to send.
    pub fn file_path(&self) -> (p: &str)
        ensures
            p@ == self.path(),
    {
        self.file_path.as_str()
    }

    /// The progress callback, if any.
    pub fn progress_callback(&self) -> (c: Option<&C>)
        ensures
            c is Some == self.reports_progress(),
    {
        match &self.progress_callback {
            Some(c) => Some(c),
            None => None,
        }
    }

    /// The name under which the file is uploaded.
    pub fn upload_file_name(&self) -> (n: String)
        ensures
            n@ == upload_name(self.path()),
    {
        match file_name_of(self.file_path.as_str()) {
            Some(n) => n,
            None => owned("unknown"),
        }
    }

    /// The body of the upload: the sender, the file name and the file's bytes
    /// in padded standard base64, which the receiving server decodes.
    pub fn request_body(&self, file_bytes: &[u8]) -> (b: FileTransferData)
        requires
            file_bytes@.len() <= usize::MAX / 2,
        ensures
            b.device_id@ == self.sender(),
            b.filename@ == upload_name(self.path()),
            b.file_data@ == base64_text(file_bytes@, true),
    {
        FileTransferData {
            device_id: self.device_id.clone(),
            filename: self.upload_file_name(),
            file_data: encode_standard(file_bytes),
        }
    }
}

/// An uploaded file arrives intact: the upload body is padded base64, which
/// the server's decoder accepts and turns back into exactly the file's bytes.
pub proof fn law_upload_arrives_intact(file: Seq<u8>, received: Seq<u8>)
    ensures
        exists|d: Seq<u8>| base64_text(d, true) == base64_text(file, true),
        base64_text(received, true) == base64_text(file, true) ==> received == file,
{
    if base64_text(received, true) == base64_text(file, true) {
        law_padded_base64_decodes_uniquely(received, file);
    }
}

} // verus!
