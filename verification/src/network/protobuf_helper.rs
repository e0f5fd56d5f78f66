//! The messages of the connection-oriented protocol between a download
//! server, a client and the manager, and their constructors.

use vstd::prelude::*;

verus! {

/// A server registers under `server_id`.
#[derive(Debug)]
pub struct ServerRegister {
    pub server_id: u32,
}

/// A server goes away.
#[derive(Debug)]
pub struct ServerDown {
    pub server_id: u32,
}

/// A server's identity.
#[derive(Debug)]
pub struct ServerInfo {
    pub id: u32,
}

/// A request to download `url`.
#[derive(Debug)]
pub struct DownloadRequest {
    pub url: String,
}

/// The size of a file and how it is cut into chunks.
#[derive(Debug)]
pub struct FileInfoResponse {
    pub file_size: u64,
    pub chunk_count: u32,
    pub chunk_sizes: Vec<u64>,
    pub final_url: String,
}

/// The bytes `start_position` to `end_position` of `url`, for a server.
#[derive(Debug)]
pub struct DownloadTask {
    pub url: String,
    pub start_position: u64,
    pub end_position: u64,
    pub task_id: String,
}

/// How a task ended.
#[derive(Debug)]
pub struct TaskResult {
    pub task_id: String,
    pub success: bool,
    pub error_message: String,
}

/// The content of a message.
#[derive(Debug)]
pub enum Payload {
    ServerRegister(ServerRegister),
    ServerDown(ServerDown),
    ServerInfo(ServerInfo),
    DownloadRequest(DownloadRequest),
    FileInfoResponse(FileInfoResponse),
    DownloadTask(DownloadTask),
    TaskResult(TaskResult),
    FileData(Vec<u8>),
}

/// A message of the protocol.
#[derive(Debug)]
pub struct Message {
    pub payload: Option<Payload>,
}

/// A server register message.
pub fn create_server_register(server_id: u32) -> (m: Message)
    ensures
        m == (Message { payload: Some(Payload::ServerRegister(ServerRegister { server_id })) }),
{
    Message { payload: Some(Payload::ServerRegister(ServerRegister { server_id })) }
}

/// A server down message.
pub fn create_server_down(server_id: u32) -> (m: Message)
    ensures
        m == (Message { payload: Some(Payload::ServerDown(ServerDown { server_id })) }),
{
    Message { payload: Some(Payload::ServerDown(ServerDown { server_id })) }
}

/// A server info message.
pub fn create_server_info(id: u32) -> (m: Message)
    ensures
        m == (Message { payload: Some(Payload::ServerInfo(ServerInfo { id })) }),
{
    Message { payload: Some(Payload::ServerInfo(ServerInfo { id })) }
}

/// A download request message.
pub fn create_download_request(url: String) -> (m: Message)
    ensures
        m == (Message { payload: Some(Payload::DownloadRequest(DownloadRequest { url })) }),
{
    Message { payload: Some(Payload::DownloadRequest(DownloadRequest { url })) }
}

/// A file info response message.
pub fn create_file_info_response(file_size: u64, chunk_count: u32, chunk_sizes: Vec<u64>, final_url: String) -> (m: Message)
    ensures
        m == (Message {
            payload: Some(Payload::FileInfoResponse(FileInfoResponse { file_size, chunk_count, chunk_sizes, final_url })),
        }),
{
    Message {
        payload: Some(Payload::FileInfoResponse(FileInfoResponse { file_size, chunk_count, chunk_sizes, final_url })),
    }
}

/// A download task message.
pub fn create_download_task(url: String, start_position: u64, end_position: u64, task_id: String) -> (m: Message)
    ensures
        m == (Message {
            payload: Some(Payload::DownloadTask(DownloadTask { url, start_position, end_position, task_id })),
        }),
{
    Message { payload: Some(Payload::DownloadTask(DownloadTask { url, start_position, end_position, task_id })) }
}

/// A task result message.
pub fn create_task_result(task_id: String, success: bool, error_message: String) -> (m: Message)
    ensures
        m == (Message { payload: Some(Payload::TaskResult(TaskResult { task_id, success, error_message })) }),
{
    Message { payload: Some(Payload::TaskResult(TaskResult { task_id, success, error_message })) }
}

/// A file data message.
pub fn create_file_data(data: Vec<u8>) -> (m: Message)
    ensures
        m == (Message { payload: Some(Payload::FileData(data)) }),
{
    Message { payload: Some(Payload::FileData(data)) }
}

} // verus!
