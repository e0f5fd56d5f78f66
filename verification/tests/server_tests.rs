use distributed_downloader::error::DistributedDownloaderError;
use distributed_downloader::network::client::ClientNetwork;
use distributed_downloader::network::manager::FileInfoResponse;
use distributed_downloader::network::protobuf_helper::{
    create_download_request, create_download_task, create_file_data, create_file_info_response,
    create_server_down, create_server_info, create_server_register, create_task_result, Message, Payload,
};
use distributed_downloader::network::server::{
    file_data_messages, ListenAction, RegistrationPhase, RegistrationStep, ServerNetwork,
};
use distributed_downloader::proto::distributed_downloader::{
    DownloadTask, ManagerCommand, ManagerPayload, ServerPayload,
};
use distributed_downloader::server::{assigned_task, registration_message, task_outcome};

fn task() -> DownloadTask {
    DownloadTask {
        job_id: "job".to_string(),
        task_id: "task".to_string(),
        url: "http://h/f".to_string(),
        range_start: 300,
        range_end: 399,
    }
}

#[test]
fn server_registration_message() {
    match registration_message("srv-1".to_string()).payload {
        Some(ServerPayload::Register(r)) => {
            assert_eq!(r.server_id, "srv-1");
            assert_eq!(r.address, "self-reported-address:port");
        }
        other => panic!("unexpected {:?}", other),
    }
}

#[test]
fn server_takes_assigned_tasks() {
    let t = assigned_task(ManagerCommand::assign(task())).unwrap();
    assert_eq!(t.task_id, "task");
    assert!(assigned_task(ManagerCommand { payload: None }).is_none());
    let c = ManagerCommand::assign(task());
    assert!(matches!(c.payload, Some(ManagerPayload::AssignTask(_))));
}

#[test]
fn server_reports_outcome() {
    match task_outcome(task(), Ok(vec![1, 2, 3])).payload {
        Some(ServerPayload::ChunkData(c)) => {
            assert_eq!((c.job_id.as_str(), c.task_id.as_str(), c.offset), ("job", "task", 300));
            assert_eq!(c.data, vec![1, 2, 3]);
        }
        other => panic!("unexpected {:?}", other),
    }
    let e = DistributedDownloaderError::HttpError("HTTP request failed with status: 500".to_string());
    match task_outcome(task(), Err(e)).payload {
        Some(ServerPayload::TaskResult(r)) => {
            assert!(!r.success);
            assert_eq!(r.task.unwrap().range_end, 399);
            assert_eq!(r.error_message, "HTTP错误: HTTP request failed with status: 500");
        }
        other => panic!("unexpected {:?}", other),
    }
}

#[test]
fn server_network_settings() {
    let mut s = ServerNetwork::new(7, "./tmp".to_string(), "./target".to_string(), 4);
    assert_eq!(s.manager_address(), ":0");
    s.set_manager_info("127.0.0.1".to_string(), 5000);
    s.set_server_info(9);
    assert_eq!(s.manager_address(), "127.0.0.1:5000");
    assert_eq!(s.id(), 9);
    assert_eq!(s.tmp_dir(), "./tmp");
    assert_eq!(s.target_dir(), "./target");
    assert_eq!(s.thread_number(), 4);
    assert!(s.send_heartbeat().is_ok());
    assert!(s.notify_manager_up("m", 1, "s", 2).is_ok());
    assert!(s.notify_manager_down("m", 1, "s", 2).is_ok());
}

#[test]
fn server_registration_dialogue() {
    let s = ServerNetwork::new(300, String::new(), String::new(), 1);
    match s.registration_reply(RegistrationPhase::AwaitingGoAhead, "go_ahead".as_bytes()) {
        RegistrationStep::SendRegistration(Message { payload: Some(Payload::ServerRegister(r)) }) => {
            assert_eq!(r.server_id, 300)
        }
        other => panic!("unexpected {:?}", other),
    }
    match s.registration_reply(RegistrationPhase::AwaitingGoAhead, "nope".as_bytes()) {
        RegistrationStep::Failed(e) => assert_eq!(e.to_display_string(), "网络错误: Registration not acknowledged"),
        other => panic!("unexpected {:?}", other),
    }
    assert!(matches!(
        s.registration_reply(RegistrationPhase::AwaitingConfirmation, "registered".as_bytes()),
        RegistrationStep::Registered
    ));
    match s.registration_reply(RegistrationPhase::AwaitingConfirmation, "go_ahead".as_bytes()) {
        RegistrationStep::Failed(e) => assert_eq!(e.to_display_string(), "网络错误: Registration failed"),
        other => panic!("unexpected {:?}", other),
    }
    assert_eq!(
        ServerNetwork::registration_failed_error().to_display_string(),
        "网络错误: Failed to register with manager"
    );
}

#[test]
fn server_reacts_to_manager_data() {
    assert!(matches!(ServerNetwork::on_manager_data(0, None), ListenAction::ConnectionClosed));
    assert!(matches!(ServerNetwork::on_manager_data(5, None), ListenAction::UndecodableData));
    assert!(matches!(
        ServerNetwork::on_manager_data(5, Some(create_server_info(1))),
        ListenAction::UnknownMessage
    ));
    match ServerNetwork::on_manager_data(9, Some(create_download_task("u".to_string(), 1, 2, "t".to_string()))) {
        ListenAction::ProcessTask(t) => assert_eq!((t.start_position, t.end_position, t.task_id.as_str()), (1, 2, "t")),
        other => panic!("unexpected {:?}", other),
    }
}

#[test]
fn task_report_cuts_file_into_pieces() {
    let data: Vec<u8> = (0..5000u32).map(|i| (i % 251) as u8).collect();
    let msgs = ServerNetwork::task_report("t1".to_string(), Ok(data.clone()));
    assert_eq!(msgs.len(), 4);
    match &msgs[0].payload {
        Some(Payload::TaskResult(r)) => {
            assert_eq!(r.task_id, "t1");
            assert!(r.success);
            assert_eq!(r.error_message, "");
        }
        other => panic!("unexpected {:?}", other),
    }
    let mut joined = Vec::new();
    let mut sizes = Vec::new();
    for m in &msgs[1..] {
        match &m.payload {
            Some(Payload::FileData(d)) => {
                sizes.push(d.len());
                joined.extend_from_slice(d);
            }
            other => panic!("unexpected {:?}", other),
        }
    }
    assert_eq!(sizes, vec![2048, 2048, 904]);
    assert_eq!(joined, data);
    assert!(file_data_messages(&[]).is_empty());
    assert_eq!(file_data_messages(&[9; 2048]).len(), 1);
}

#[test]
fn task_report_on_failure() {
    let msgs = ServerNetwork::task_report(
        "t2".to_string(),
        Err(DistributedDownloaderError::IoError("denied".to_string())),
    );
    assert_eq!(msgs.len(), 1);
    match &msgs[0].payload {
        Some(Payload::TaskResult(r)) => {
            assert_eq!(r.task_id, "t2");
            assert!(!r.success);
            assert_eq!(r.error_message, "Download failed: IO错误: denied");
        }
        other => panic!("unexpected {:?}", other),
    }
}

#[test]
fn message_constructors() {
    assert!(matches!(create_server_register(3).payload, Some(Payload::ServerRegister(r)) if r.server_id == 3));
    assert!(matches!(create_server_down(4).payload, Some(Payload::ServerDown(r)) if r.server_id == 4));
    assert!(matches!(create_download_request("u".to_string()).payload, Some(Payload::DownloadRequest(r)) if r.url == "u"));
    match create_file_info_response(10, 2, vec![6, 4], "f".to_string()).payload {
        Some(Payload::FileInfoResponse(r)) => {
            assert_eq!((r.file_size, r.chunk_count, r.chunk_sizes.clone(), r.final_url.as_str()), (10, 2, vec![6, 4], "f"))
        }
        other => panic!("unexpected {:?}", other),
    }
    assert!(matches!(create_task_result("t".to_string(), true, String::new()).payload, Some(Payload::TaskResult(r)) if r.success));
    assert!(matches!(create_file_data(vec![1]).payload, Some(Payload::FileData(d)) if d == vec![1]));
}

#[test]
fn client_network_dialogue() {
    assert!(ClientNetwork::is_go_ahead("go_ahead".as_bytes()));
    assert!(!ClientNetwork::is_go_ahead("go_ahead!".as_bytes()));
    assert_eq!(ClientNetwork::file_info_payload("file_info:{\"a\":1}".as_bytes()).unwrap(), "{\"a\":1}");
    assert!(ClientNetwork::file_info_payload("file_inf".as_bytes()).is_none());
    assert!(ClientNetwork::is_task_data_marker("task_data:17".as_bytes()));
    assert!(!ClientNetwork::is_task_data_marker("\u{fffd}task_data:".as_bytes()));
    let info = FileInfoResponse { file_size: 10, chunk_count: 4, chunk_sizes: vec![3, 5, 2] };
    assert_eq!(ClientNetwork::chunk_positions(&info), vec![0, 3, 8, 0]);
}

#[test]
fn replies_that_are_not_utf8_are_read_lossily() {
    let mut payload = b"file_info:".to_vec();
    payload.push(0xff);
    assert_eq!(ClientNetwork::file_info_payload(&payload).unwrap(), "\u{fffd}");
    let mut marker = vec![0xffu8];
    marker.extend_from_slice(b"task_data:");
    assert!(!ClientNetwork::is_task_data_marker(&marker));
    assert!(!ClientNetwork::is_go_ahead(&[0x67, 0x6f, 0xff]));
}
