use distributed_downloader::client::{
    download_request, file_name_from_segments, on_client_event, uses_default_file_name, output_file_name, Args, ClientError, ClientSession, ClientStep,
    ClientStreamEvent,
};
use distributed_downloader::downloader::http::{check_status, is_success, range_header, RangeDownload};
use distributed_downloader::error::DistributedDownloaderError;
use distributed_downloader::proto::distributed_downloader::{
    ClientDataChunk, ClientPayload, DataChunk, DownloadTask, FileMetadata, ServerPayload,
};
use distributed_downloader::server::task_outcome;
use distributed_downloader::utils::distributor::{generate_tasks, MAX_CHUNK_SIZE};

#[test]
fn range_header_text() {
    assert_eq!(range_header(0, 99), "bytes=0-99");
    assert_eq!(range_header(3145728, 6291455), "bytes=3145728-6291455");
}

#[test]
fn status_check() {
    assert!(is_success(200));
    assert!(is_success(206));
    assert!(is_success(299));
    assert!(!is_success(199));
    assert!(!is_success(300));
    assert!(check_status(206, "206 Partial Content").is_ok());
    match check_status(404, "404 Not Found") {
        Err(DistributedDownloaderError::HttpError(m)) => {
            assert_eq!(m, "HTTP request failed with status: 404 Not Found")
        }
        other => panic!("unexpected {:?}", other),
    }
}

#[test]
fn range_body_collected_exactly() {
    let mut d = RangeDownload::new(10, 19);
    assert_eq!(d.total_size(), 10);
    assert!(d.accept_chunk(&[1, 2, 3, 4]).is_ok());
    assert!(d.accept_chunk(&[]).is_ok());
    assert!(d.accept_chunk(&[5, 6, 7, 8, 9, 10]).is_ok());
    assert_eq!(d.finish().unwrap(), vec![1, 2, 3, 4, 5, 6, 7, 8, 9, 10]);
}

#[test]
fn range_body_too_long_is_refused() {
    let mut d = RangeDownload::new(0, 4);
    assert!(d.accept_chunk(&[0; 3]).is_ok());
    match d.accept_chunk(&[0; 3]) {
        Err(DistributedDownloaderError::HttpError(m)) => assert_eq!(
            m,
            "Received more data than expected for range 0-4. Expected: 5 bytes, Received so far: 3 bytes, Current chunk: 3 bytes."
        ),
        other => panic!("unexpected {:?}", other),
    }
    assert!(d.accept_chunk(&[0; 2]).is_ok());
    assert_eq!(d.finish().unwrap().len(), 5);
}

#[test]
fn range_body_too_short_is_refused() {
    let mut d = RangeDownload::new(100, 199);
    assert!(d.accept_chunk(&[7; 60]).is_ok());
    match d.finish() {
        Err(DistributedDownloaderError::HttpError(m)) => assert_eq!(
            m,
            "Did not receive the expected amount of data for range 100-199. Expected: 100 bytes, Received: 60 bytes."
        ),
        other => panic!("unexpected {:?}", other),
    }
}

#[test]
fn reversed_range_counts_one_byte() {
    let mut d = RangeDownload::new(9, 3);
    assert_eq!(d.total_size(), 1);
    assert!(d.accept_chunk(&[1]).is_ok());
    assert_eq!(d.finish().unwrap(), vec![1]);
}

#[test]
fn output_name_given_or_from_url() {
    assert_eq!(output_file_name("https://example.com/a/b.bin", &Some("out.bin".to_string())).unwrap(), "out.bin");
    assert_eq!(output_file_name("https://example.com/files/data.bin", &None).unwrap(), "data.bin");
    assert_eq!(output_file_name("https://httpbin.org/json?x=1", &None).unwrap(), "json");
    assert_eq!(output_file_name("https://example.com/", &None).unwrap(), "downloaded_file");
    assert_eq!(output_file_name("https://example.com/dir/", &None).unwrap(), "downloaded_file");
    match output_file_name("not a url", &None) {
        Err(ClientError::InvalidUrl(t)) => assert_eq!(t, "relative URL without a base"),
        other => panic!("unexpected {:?}", other),
    }
    assert!(matches!(output_file_name("mailto:someone@example.com", &None), Err(ClientError::NoPathSegments)));
    assert_eq!(ClientError::NoPathSegments.message(), "Could not get path segments from URL");
}

#[test]
fn file_name_from_each_kind_of_segments() {
    assert!(matches!(file_name_from_segments(None), Err(ClientError::NoPathSegments)));
    assert!(matches!(file_name_from_segments(Some(vec![])), Err(ClientError::NoLastSegment)));
    assert_eq!(file_name_from_segments(Some(vec!["a".to_string(), "b.bin".to_string()])).unwrap(), "b.bin");
    assert_eq!(file_name_from_segments(Some(vec!["a".to_string(), "".to_string()])).unwrap(), "downloaded_file");
}

#[test]
fn request_for_args() {
    let args = Args {
        url: "http://h/x/file.txt".to_string(),
        output: None,
        manager_address: "http://127.0.0.1:5000".to_string(),
    };
    let r = download_request(&args).unwrap();
    assert_eq!(r.url, "http://h/x/file.txt");
    assert_eq!(r.output_file, "file.txt");
}

fn meta(job: &str, size: u64) -> ClientStreamEvent {
    ClientStreamEvent::Message(ClientDataChunk {
        payload: Some(ClientPayload::Metadata(FileMetadata { job_id: job.to_string(), file_size: size })),
    })
}

fn data(offset: u64, bytes: &[u8]) -> ClientStreamEvent {
    ClientStreamEvent::Message(ClientDataChunk {
        payload: Some(ClientPayload::Chunk(DataChunk { job_id: "j".to_string(), offset, data: bytes.to_vec() })),
    })
}

#[test]
fn client_needs_metadata_first() {
    let (s, step) = on_client_event(ClientSession::AwaitingMetadata, data(0, b"x"));
    assert!(matches!(s, ClientSession::Finished));
    match step {
        ClientStep::Fail(e) => assert_eq!(e.message(), "First message from server was not metadata."),
        other => panic!("unexpected {:?}", other),
    }
    let (_, step) = on_client_event(ClientSession::AwaitingMetadata, ClientStreamEvent::Ended);
    match step {
        ClientStep::Fail(e) => assert_eq!(e.message(), "Manager closed stream before sending metadata."),
        other => panic!("unexpected {:?}", other),
    }
    let (_, step) = on_client_event(ClientSession::AwaitingMetadata, ClientStreamEvent::Failed("boom".to_string()));
    assert!(matches!(step, ClientStep::Fail(ClientError::StreamFailed(ref t)) if t == "boom"));
}

#[test]
fn client_writes_chunks_at_their_offsets() {
    let (s, step) = on_client_event(ClientSession::AwaitingMetadata, meta("j", 10));
    assert!(matches!(step, ClientStep::Prepare { ref job_id, file_size: 10 } if job_id == "j"));
    let (s, step) = on_client_event(s, data(6, b"wxyz"));
    assert!(matches!(step, ClientStep::Write { offset: 6, ref data } if data == b"wxyz"));
    let (s, step) = on_client_event(s, meta("j", 10));
    assert!(matches!(step, ClientStep::WarnNotChunk));
    let (s, step) = on_client_event(s, ClientStreamEvent::Message(ClientDataChunk { payload: None }));
    assert!(matches!(step, ClientStep::WarnNotChunk));
    let (s, step) = on_client_event(s, ClientStreamEvent::Ended);
    assert!(matches!(s, ClientSession::Finished));
    assert!(matches!(step, ClientStep::Complete));
    let (_, step) = on_client_event(s, data(0, b"late"));
    assert!(matches!(step, ClientStep::Nothing));
}

#[test]
fn task_results_in_any_order_rebuild_the_file() {
    let size: u64 = 2 * MAX_CHUNK_SIZE + 7;
    let file: Vec<u8> = (0..size).map(|i| (i % 251) as u8).collect();
    let tasks = generate_tasks(size);
    assert_eq!(tasks.len(), 3);
    let (mut session, step) = on_client_event(ClientSession::AwaitingMetadata, meta("j", size));
    assert!(matches!(step, ClientStep::Prepare { file_size, .. } if file_size == size));
    let mut out = vec![0u8; size as usize];
    // The results arrive last task first, and the middle one twice.
    for &i in [2usize, 1, 0, 1].iter() {
        let (start, end) = tasks[i];
        let task = DownloadTask {
            job_id: "j".to_string(),
            task_id: format!("t{}", i),
            url: "http://h/f".to_string(),
            range_start: start,
            range_end: end,
        };
        let bytes = file[start as usize..=end as usize].to_vec();
        let chunk = match task_outcome(task, Ok(bytes)).payload {
            Some(ServerPayload::ChunkData(c)) => c,
            other => panic!("unexpected {:?}", other),
        };
        let event = ClientStreamEvent::Message(ClientDataChunk {
            payload: Some(ClientPayload::Chunk(DataChunk { job_id: chunk.job_id, offset: chunk.offset, data: chunk.data })),
        });
        let (next, step) = on_client_event(session, event);
        session = next;
        match step {
            ClientStep::Write { offset, data } => {
                out[offset as usize..offset as usize + data.len()].copy_from_slice(&data)
            }
            other => panic!("unexpected {:?}", other),
        }
    }
    assert!(out == file);
}

#[test]
fn default_file_name_only_for_an_empty_last_segment() {
    assert!(uses_default_file_name("https://example.com/"));
    assert!(uses_default_file_name("https://example.com/dir/"));
    assert!(!uses_default_file_name("https://example.com/a/b.bin"));
    assert!(!uses_default_file_name("not a url"));
    assert!(!uses_default_file_name("mailto:someone@example.com"));
}
