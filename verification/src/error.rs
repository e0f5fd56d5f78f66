//! The error type shared by the downloader's components.

use vstd::prelude::*;

verus! {

/// What can go wrong in the downloader. Each variant carries the text of
/// the failure; for an I/O failure that is the text of the `std::io::Error`.
#[derive(Debug)]
pub enum DistributedDownloaderError {
    /// An I/O error.
    IoError(String),
    /// An HTTP error.
    HttpError(String),
    /// A network error.
    NetworkError(String),
    /// A protocol error.
    ProtocolError(String),
    /// A download error.
    DownloadError(String),
}

/// The text that the error displays: a label for its kind, then its message.
pub open spec fn error_text(e: DistributedDownloaderError) -> Seq<char> {
    match e {
        DistributedDownloaderError::IoError(m) => "IO错误: "@ + m@,
        DistributedDownloaderError::HttpError(m) => "HTTP错误: "@ + m@,
        DistributedDownloaderError::NetworkError(m) => "网络错误: "@ + m@,
        DistributedDownloaderError::ProtocolError(m) => "协议错误: "@ + m@,
        DistributedDownloaderError::DownloadError(m) => "下载错误: "@ + m@,
    }
}

/// `label` followed by `message`, as one new string.
pub fn labelled(label: &str, message: &str) -> (s: String)
    ensures
        s@ == label@ + message@,
{
    let mut s = label.to_owned();
    s.append(message);
    s
}

impl DistributedDownloaderError {
    /// The text of the error, as the error's `Display` writes it.
    pub fn to_display_string(&self) -> (s: String)
        ensures
            s@ == error_text(*self),
    {
        match self {
            DistributedDownloaderError::IoError(m) => labelled("IO错误: ", m.as_str()),
            DistributedDownloaderError::HttpError(m) => labelled("HTTP错误: ", m.as_str()),
            DistributedDownloaderError::NetworkError(m) => labelled("网络错误: ", m.as_str()),
            DistributedDownloaderError::ProtocolError(m) => labelled("协议错误: ", m.as_str()),
            DistributedDownloaderError::DownloadError(m) => labelled("下载错误: ", m.as_str()),
        }
    }

    /// The error for a failed I/O operation, from the text of the `std::io::Error`.
    pub fn from_io_error(text: String) -> (e: Self)
        ensures
            e == DistributedDownloaderError::IoError(text),
    {
        DistributedDownloaderError::IoError(text)
    }

    /// The error for a failed HTTP client request, from the text of the
    /// HTTP client's error.
    pub fn from_http_client_error(text: &str) -> (e: Self)
        ensures
            e matches DistributedDownloaderError::NetworkError(m) && m@ == "HTTP请求错误: "@ + text@,
    {
        DistributedDownloaderError::NetworkError(labelled("HTTP请求错误: ", text))
    }

    /// The error for a background task that could not be joined, from the
    /// text of the join error.
    pub fn from_join_error(text: &str) -> (e: Self)
        ensures
            e matches DistributedDownloaderError::NetworkError(m) && m@ == "任务连接错误: "@ + text@,
    {
        DistributedDownloaderError::NetworkError(labelled("任务连接错误: ", text))
    }

    /// The error for bytes that do not decode as a protobuf message, from
    /// the text of the decode error.
    pub fn from_decode_error(text: &str) -> (e: Self)
        ensures
            e matches DistributedDownloaderError::ProtocolError(m) && m@ == "Protobuf解码错误: "@ + text@,
    {
        DistributedDownloaderError::ProtocolError(labelled("Protobuf解码错误: ", text))
    }
}

} // verus!
