//! The records that cross the boundary between the host and a format handler.
use vstd::prelude::*;
use crate::text::opt_chars;

verus! {

/// What the repository knows of one stored artifact.
#[derive(Debug, Clone)]
pub struct Metadata {
    /// Repository-relative path; may contain `/`.
    pub path: String,
    pub version: Option<String>,
    /// MIME type of the content.
    pub content_type: String,
    pub size_bytes: u64,
    /// Set by the host only; never computed here.
    pub checksum_sha256: Option<String>,
}

/// Where the repository is reachable, as the host supplies it per request.
#[derive(Debug, Clone)]
pub struct RepoContext {
    pub repo_key: String,
    /// Prefix of links back into this repository's browsing endpoints.
    pub base_url: String,
    /// Prefix of download redirect targets.
    pub download_base_url: String,
}

/// An inbound HTTP-style request.
#[derive(Debug, Clone)]
pub struct HttpRequest {
    pub method: String,
    pub path: String,
    pub query: String,
    pub headers: Vec<(String, String)>,
    pub body: Vec<u8>,
}

/// A synthesized HTTP-style response.
#[derive(Debug, Clone)]
pub struct HttpResponse {
    pub status: u16,
    pub headers: Vec<(String, String)>,
    pub body: Vec<u8>,
}

/// The content of a `Metadata` record.
pub struct MetadataView {
    pub path: Seq<char>,
    pub version: Option<Seq<char>>,
    pub content_type: Seq<char>,
    pub size_bytes: u64,
    pub checksum_sha256: Option<Seq<char>>,
}

impl View for Metadata {
    type V = MetadataView;

    open spec fn view(&self) -> MetadataView {
        MetadataView {
            path: self.path@,
            version: opt_chars(self.version),
            content_type: self.content_type@,
            size_bytes: self.size_bytes,
            checksum_sha256: opt_chars(self.checksum_sha256),
        }
    }
}

/// A result whose error is a message, with the message as characters.
pub open spec fn message_result<T>(r: Result<T, String>) -> Result<T, Seq<char>> {
    match r {
        Ok(v) => Ok(v),
        Err(e) => Err(e@),
    }
}

/// The outcome of `parse_metadata` with the record seen through its view.
pub open spec fn metadata_result(r: Result<Metadata, String>) -> Result<MetadataView, Seq<char>> {
    match r {
        Ok(m) => Ok(m@),
        Err(e) => Err(e@),
    }
}

/// The message of every handler's `parse_metadata` on empty data.
pub open spec fn empty_file_message() -> Seq<char> {
    "Empty file"@
}

/// The message of every handler's `validate` on an empty path.
pub open spec fn empty_path_message() -> Seq<char> {
    "Artifact path cannot be empty"@
}

/// A header as a pair of character sequences.
pub open spec fn header_view(h: (String, String)) -> (Seq<char>, Seq<char>) {
    (h.0@, h.1@)
}

/// The headers of a response as character sequences.
pub open spec fn headers_view(hs: Seq<(String, String)>) -> Seq<(Seq<char>, Seq<char>)> {
    hs.map_values(|h: (String, String)| header_view(h))
}

} // verus!
