//! Messages of the download service: between the manager and the download
//! servers, and from the manager to a client.

use vstd::prelude::*;

verus! {

/// A client asks the manager to download `url`.
#[derive(Debug)]
pub struct DownloadRequest {
    pub url: String,
    pub output_file: String,
}

/// What a client learns first about its download.
#[derive(Debug)]
pub struct FileMetadata {
    pub job_id: String,
    pub file_size: u64,
}

/// Bytes of a download, for the client, with their place in the file.
#[derive(Debug)]
pub struct DataChunk {
    pub job_id: String,
    pub offset: u64,
    pub data: Vec<u8>,
}

/// The content of a message from the manager to a client.
#[derive(Debug)]
pub enum ClientPayload {
    Metadata(FileMetadata),
    Chunk(DataChunk),
}

/// A message from the manager to a client.
#[derive(Debug)]
pub struct ClientDataChunk {
    pub payload: Option<ClientPayload>,
}

/// One byte range of a download, for one server: bytes `range_start` to
/// `range_end`, both included.
#[derive(Debug)]
pub struct DownloadTask {
    pub job_id: String,
    pub task_id: String,
    pub url: String,
    pub range_start: u64,
    pub range_end: u64,
}

/// The content of a message from the manager to a server.
#[derive(Debug)]
pub enum ManagerPayload {
    AssignTask(DownloadTask),
}

/// A message from the manager to a server.
#[derive(Debug)]
pub struct ManagerCommand {
    pub payload: Option<ManagerPayload>,
}

/// A server announces itself to the manager.
#[derive(Debug)]
pub struct ServerRegistration {
    pub server_id: String,
    pub address: String,
}

/// Bytes that a server downloaded for a task, with their place in the file.
#[derive(Debug)]
pub struct ChunkData {
    pub job_id: String,
    pub task_id: String,
    pub offset: u64,
    pub data: Vec<u8>,
}

/// How a task ended on a server.
#[derive(Debug)]
pub struct TaskResult {
    pub task: Option<DownloadTask>,
    pub success: bool,
    pub error_message: String,
}

/// The content of a message from a server to the manager.
#[derive(Debug)]
pub enum ServerPayload {
    Register(ServerRegistration),
    ChunkData(ChunkData),
    TaskResult(TaskResult),
}

/// A message from a server to the manager.
#[derive(Debug)]
pub struct ServerMessage {
    pub payload: Option<ServerPayload>,
}

impl ManagerCommand {
    /// The command that hands `task` to a server.
    pub fn assign(task: DownloadTask) -> (c: Self)
        ensures
            c == (ManagerCommand { payload: Some(ManagerPayload::AssignTask(task)) }),
    {
        ManagerCommand { payload: Some(ManagerPayload::AssignTask(task)) }
    }
}

} // verus!
