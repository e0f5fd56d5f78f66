use distributed_downloader::network::manager::{
    ConnectionManager, HttpFileInfo, JobStep, ManagerServiceImpl, ServerSession, ServerSessionAction,
    ServerStreamEvent,
};
use distributed_downloader::proto::distributed_downloader::{
    ChunkData, ClientPayload, ServerMessage, ServerPayload, ServerRegistration, TaskResult,
};
use distributed_downloader::utils::distributor::MAX_CHUNK_SIZE;

fn register(id: &str) -> ServerStreamEvent {
    ServerStreamEvent::Message(ServerMessage {
        payload: Some(ServerPayload::Register(ServerRegistration {
            server_id: id.to_string(),
            address: "a:1".to_string(),
        })),
    })
}

fn chunk(job: &str, offset: u64, data: &[u8]) -> ServerStreamEvent {
    ServerStreamEvent::Message(ServerMessage {
        payload: Some(ServerPayload::ChunkData(ChunkData {
            job_id: job.to_string(),
            task_id: "t".to_string(),
            offset,
            data: data.to_vec(),
        })),
    })
}

fn sorted(mut v: Vec<String>) -> Vec<String> {
    v.sort();
    v
}

#[test]
fn registry_keeps_each_server_once() {
    let mut cm = ConnectionManager::new();
    cm.add_server("a".to_string());
    cm.add_server("b".to_string());
    cm.add_server("a".to_string());
    assert_eq!(sorted(cm.get_all_servers()), vec!["a".to_string(), "b".to_string()]);
    cm.remove_server("a");
    assert_eq!(cm.get_all_servers(), vec!["b".to_string()]);
    assert!(!cm.has_server("a"));
    assert!(cm.has_server("b"));
    cm.remove_server("zzz");
    assert_eq!(cm.get_all_servers(), vec!["b".to_string()]);
}

#[test]
fn register_then_disconnect_restores_registry() {
    let mut cm = ConnectionManager::new();
    cm.add_server("x".to_string());
    cm.add_server("y".to_string());
    let before = sorted(cm.get_all_servers());
    cm.add_server("new".to_string());
    cm.remove_server("new");
    assert_eq!(sorted(cm.get_all_servers()), before);
    let snap = cm.snapshot();
    assert_eq!(sorted(snap.get_all_servers()), before);
}

#[test]
fn first_message_must_register() {
    let mut m = ManagerServiceImpl::new();
    let (s, a) = m.on_server_event(ServerSession::AwaitingRegistration, chunk("j", 0, b"x"));
    assert!(matches!(s, ServerSession::Closed));
    assert!(matches!(a, ServerSessionAction::RejectFirstMessage));
    let (s, a) = m.on_server_event(ServerSession::AwaitingRegistration, ServerStreamEvent::Ended);
    assert!(matches!(s, ServerSession::Closed));
    assert!(matches!(a, ServerSessionAction::ClosedBeforeRegistration));
    let (_, a) = m.on_server_event(ServerSession::AwaitingRegistration, ServerStreamEvent::Failed);
    assert!(matches!(a, ServerSessionAction::ClosedBeforeRegistration));
    assert!(m.server_connections().get_all_servers().is_empty());
}

#[test]
fn server_session_lifecycle() {
    let mut m = ManagerServiceImpl::new();
    let (s, a) = m.on_server_event(ServerSession::AwaitingRegistration, register("srv"));
    match &a {
        ServerSessionAction::Register { server_id } => assert_eq!(server_id, "srv"),
        other => panic!("unexpected {:?}", other),
    }
    assert_eq!(m.server_connections().get_all_servers(), vec!["srv".to_string()]);

    // data for a job that no client waits for is dropped
    let (s, a) = m.on_server_event(s, chunk("nobody", 5, b"abc"));
    assert!(matches!(a, ServerSessionAction::DiscardChunk { ref job_id } if job_id == "nobody"));

    // data for a waiting client is forwarded as it came
    let job = m.start_job();
    assert!(m.has_client(&job));
    let (s, a) = m.on_server_event(s, chunk(&job, 42, b"hello"));
    match a {
        ServerSessionAction::ForwardToClient { job_id, chunk } => {
            assert_eq!(job_id, job);
            match chunk.payload {
                Some(ClientPayload::Chunk(c)) => {
                    assert_eq!(c.job_id, job);
                    assert_eq!(c.offset, 42);
                    assert_eq!(c.data, b"hello".to_vec());
                }
                other => panic!("unexpected {:?}", other),
            }
        }
        other => panic!("unexpected {:?}", other),
    }

    let (s, a) = m.on_server_event(s, register("again"));
    assert!(matches!(a, ServerSessionAction::IgnoreDuplicateRegistration));
    let (s, a) = m.on_server_event(
        s,
        ServerStreamEvent::Message(ServerMessage {
            payload: Some(ServerPayload::TaskResult(TaskResult {
                task: None,
                success: false,
                error_message: "e".to_string(),
            })),
        }),
    );
    assert!(matches!(a, ServerSessionAction::ReportTaskResult { success: false }));
    let (s, a) = m.on_server_event(s, ServerStreamEvent::Message(ServerMessage { payload: None }));
    assert!(matches!(a, ServerSessionAction::Nothing));

    let (s, a) = m.on_server_event(s, ServerStreamEvent::Failed);
    assert!(matches!(s, ServerSession::Closed));
    assert!(matches!(a, ServerSessionAction::Disconnect { ref server_id } if server_id == "srv"));
    assert!(m.server_connections().get_all_servers().is_empty());
    let (_, a) = m.on_server_event(s, register("late"));
    assert!(matches!(a, ServerSessionAction::Nothing));
    assert!(m.server_connections().get_all_servers().is_empty());
}

#[test]
fn job_ends_when_file_info_fails() {
    let mut m = ManagerServiceImpl::new();
    let job = m.start_job();
    match m.on_file_info(&job, Err("timeout".to_string())) {
        JobStep::Fail { message } => assert_eq!(message, "Failed to get file info: timeout"),
        other => panic!("unexpected {:?}", other),
    }
    assert!(!m.has_client(&job));
}

#[test]
fn job_ends_without_content_length() {
    let mut m = ManagerServiceImpl::new();
    for header in [None, Some("12a".to_string()), Some("".to_string()), Some("-3".to_string())] {
        let job = m.start_job();
        let info = HttpFileInfo { final_url: "http://h/f".to_string(), content_length: header };
        match m.on_file_info(&job, Ok(info)) {
            JobStep::Fail { message } => assert_eq!(message, "Could not get content length."),
            other => panic!("unexpected {:?}", other),
        }
        assert!(!m.has_client(&job));
    }
}

#[test]
fn job_sends_metadata_then_dispatches() {
    let mut m = ManagerServiceImpl::new();
    let (_s, _a) = m.on_server_event(ServerSession::AwaitingRegistration, register("only"));
    let job = m.start_job();
    assert_eq!(job.len(), 36);
    let info = HttpFileInfo {
        final_url: "http://h/final".to_string(),
        content_length: Some("+6291457".to_string()),
    };
    match m.on_file_info(&job, Ok(info)) {
        JobStep::SendMetadata { metadata, final_url, file_size } => {
            assert_eq!(final_url, "http://h/final");
            assert_eq!(file_size, 6291457);
            match metadata.payload {
                Some(ClientPayload::Metadata(md)) => {
                    assert_eq!(md.job_id, job);
                    assert_eq!(md.file_size, 6291457);
                }
                other => panic!("unexpected {:?}", other),
            }
        }
        other => panic!("unexpected {:?}", other),
    }
    assert!(m.on_metadata_sent(&job, true));
    let plan = m.dispatch_job(&job, "http://h/final", 6291457).unwrap();
    assert_eq!(plan.len(), 3);
    assert!(plan.iter().all(|a| a.server_id == "only"));
    assert_eq!(plan[2].task.range_start, 2 * MAX_CHUNK_SIZE);
    assert_eq!(plan[2].task.range_end, 6291456);
    assert!(m.has_client(&job));
    m.end_job(&job);
    assert!(!m.has_client(&job));
}

#[test]
fn job_ends_when_metadata_is_lost() {
    let mut m = ManagerServiceImpl::new();
    let job = m.start_job();
    assert!(!m.on_metadata_sent(&job, false));
    assert!(!m.has_client(&job));
}

#[test]
fn dispatch_without_servers_ends_job() {
    let mut m = ManagerServiceImpl::new();
    let job = m.start_job();
    assert_eq!(m.dispatch_job(&job, "http://h/f", 10).unwrap_err(), "Failed to dispatch tasks.");
    assert!(!m.has_client(&job));
}

#[test]
fn dispatch_of_huge_file_without_servers_ends_job() {
    let mut m = ManagerServiceImpl::new();
    let job = m.start_job();
    assert_eq!(m.dispatch_job(&job, "http://h/f", u64::MAX).unwrap_err(), "Failed to dispatch tasks.");
    assert!(!m.has_client(&job));
}

#[test]
fn jobs_get_distinct_identifiers() {
    let mut m = ManagerServiceImpl::new();
    let a = m.start_job();
    let b = m.start_job();
    assert_ne!(a, b);
    for id in [&a, &b] {
        let bytes = id.as_bytes();
        for (i, c) in bytes.iter().enumerate() {
            if i == 8 || i == 13 || i == 18 || i == 23 {
                assert_eq!(*c, b'-');
            } else {
                assert!(c.is_ascii_digit() || (b'a'..=b'f').contains(c));
            }
        }
        assert!(matches!(bytes[19], b'8' | b'9' | b'a' | b'b'));
    }
}
