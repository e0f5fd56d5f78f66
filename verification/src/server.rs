//! A download server: how it announces itself to the manager, which
//! commands it acts on, and what it reports for each task.

use vstd::prelude::*;
use crate::error::{error_text, DistributedDownloaderError};
use crate::proto::distributed_downloader::{
    ChunkData, DownloadTask, ManagerCommand, ManagerPayload, ServerMessage, ServerPayload, ServerRegistration,
    TaskResult,
};

verus! {

/// The address a server reports when it registers.
pub open spec fn reported_address() -> Seq<char> {
    "self-reported-address:port"@
}

/// The first message of a server: its registration under `server_id`.
pub fn registration_message(server_id: String) -> (m: ServerMessage)
    ensures
        m.payload matches Some(ServerPayload::Register(r)) && r.server_id == server_id
            && r.address@ == reported_address(),
{
    ServerMessage {
        payload: Some(ServerPayload::Register(ServerRegistration {
            server_id,
            address: "self-reported-address:port".to_owned(),
        })),
    }
}

/// The task that a command of the manager assigns, if it assigns one.
pub fn assigned_task(command: ManagerCommand) -> (task: Option<DownloadTask>)
    ensures
        match command.payload {
            Some(ManagerPayload::AssignTask(t)) => task == Some(t),
            None => task is None,
        },
{
    match command.payload {
        Some(ManagerPayload::AssignTask(t)) => Some(t),
        None => None,
    }
}

/// What a server sends back for `task`: the downloaded bytes, placed at the
/// start of the task's range, or the failure with the task and the error's
/// text.
pub fn task_outcome(task: DownloadTask, result: Result<Vec<u8>, DistributedDownloaderError>) -> (m: ServerMessage)
    ensures
        match result {
            Ok(data) => m.payload matches Some(ServerPayload::ChunkData(c)) && c.job_id == task.job_id
                && c.task_id == task.task_id && c.offset == task.range_start && c.data == data,
            Err(e) => m.payload matches Some(ServerPayload::TaskResult(r)) && r.task == Some(task) && !r.success
                && r.error_message@ == error_text(e),
        },
{
    match result {
        Ok(data) => {
            let offset = task.range_start;
            ServerMessage {
                payload: Some(ServerPayload::ChunkData(ChunkData {
                    job_id: task.job_id,
                    task_id: task.task_id,
                    offset,
                    data,
                })),
            }
        },
        Err(e) => ServerMessage {
            payload: Some(ServerPayload::TaskResult(TaskResult {
                task: Some(task),
                success: false,
                error_message: e.to_display_string(),
            })),
        },
    }
}

} // verus!
