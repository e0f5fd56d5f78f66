use distributed_downloader::utils::distributor::{
    generate_tasks, DownloadDistributor, Distributor, MAX_CHUNK_SIZE,
};
use distributed_downloader::network::manager::ConnectionManager;
use distributed_downloader::error::DistributedDownloaderError;

#[test]
fn test_download_distributor() {
    // Test normal distribution
    let intervals = DownloadDistributor::download_interval_list(0, 99, 4);
    assert_eq!(intervals.len(), 4);
    assert_eq!(intervals[0], [0, 24]);
    assert_eq!(intervals[1], [25, 49]);
    assert_eq!(intervals[2], [50, 74]);
    assert_eq!(intervals[3], [75, 99]);

    // Test distribution with remainder
    let intervals = DownloadDistributor::download_interval_list(0, 100, 3);
    assert_eq!(intervals.len(), 3);
    assert_eq!(intervals[0], [0, 33]);
    assert_eq!(intervals[1], [34, 67]);
    assert_eq!(intervals[2], [68, 100]);
}

#[test]
fn interval_list_covers_offset_range_exactly() {
    let intervals = DownloadDistributor::download_interval_list(10, 19, 3);
    assert_eq!(intervals, vec![[10, 13], [14, 16], [17, 19]]);
    let intervals = DownloadDistributor::download_interval_list(u64::MAX - 4, u64::MAX, 5);
    assert_eq!(intervals.len(), 5);
    assert_eq!(intervals[0], [u64::MAX - 4, u64::MAX - 4]);
    assert_eq!(intervals[4], [u64::MAX, u64::MAX]);
    let one = DownloadDistributor::download_interval_list(7, 7, 1);
    assert_eq!(one, vec![[7, 7]]);
}

#[test]
fn tasks_of_an_empty_file() {
    assert!(generate_tasks(0).is_empty());
}

#[test]
fn tasks_of_small_and_boundary_files() {
    assert_eq!(generate_tasks(1), vec![(0, 0)]);
    assert_eq!(generate_tasks(MAX_CHUNK_SIZE), vec![(0, MAX_CHUNK_SIZE - 1)]);
    assert_eq!(
        generate_tasks(MAX_CHUNK_SIZE + 1),
        vec![(0, MAX_CHUNK_SIZE - 1), (MAX_CHUNK_SIZE, MAX_CHUNK_SIZE)]
    );
    let seven_mib = 7 * 1024 * 1024;
    assert_eq!(
        generate_tasks(seven_mib),
        vec![
            (0, 3145727),
            (3145728, 6291455),
            (6291456, 7340031),
        ]
    );
}

#[test]
fn tasks_cover_the_file_in_order() {
    let size = 10 * MAX_CHUNK_SIZE + 12345;
    let tasks = generate_tasks(size);
    assert_eq!(tasks.len(), 11);
    assert_eq!(tasks[0].0, 0);
    assert_eq!(tasks[10].1, size - 1);
    for i in 0..10 {
        assert_eq!(tasks[i + 1].0, tasks[i].1 + 1);
        assert_eq!(tasks[i].1 - tasks[i].0 + 1, MAX_CHUNK_SIZE);
    }
}

#[test]
fn dispatch_without_servers_fails() {
    let distributor = Distributor::new(ConnectionManager::new());
    let res = distributor.distribute_and_dispatch("job", "http://example.com/f", 100);
    match res {
        Err(DistributedDownloaderError::DownloadError(m)) => {
            assert_eq!(m, "No servers available for download.")
        }
        other => panic!("unexpected {:?}", other),
    }
}

#[test]
fn dispatch_without_servers_fails_for_any_size() {
    let distributor = Distributor::new(ConnectionManager::new());
    match distributor.distribute_and_dispatch("job", "http://example.com/f", u64::MAX) {
        Err(DistributedDownloaderError::DownloadError(m)) => {
            assert_eq!(m, "No servers available for download.")
        }
        other => panic!("unexpected {:?}", other),
    }
}

#[test]
fn dispatch_hands_tasks_out_in_turn() {
    let mut cm = ConnectionManager::new();
    cm.add_server("s1".to_string());
    cm.add_server("s2".to_string());
    let distributor = Distributor::new(cm);
    let size = 4 * MAX_CHUNK_SIZE + 1;
    let plan = distributor
        .distribute_and_dispatch("job-7", "http://example.com/f", size)
        .unwrap();
    assert_eq!(plan.len(), 5);
    let servers: Vec<&str> = plan.iter().map(|a| a.server_id.as_str()).collect();
    let first = servers[0];
    let second = if first == "s1" { "s2" } else { "s1" };
    assert_eq!(servers, vec![first, second, first, second, first]);
    for (i, a) in plan.iter().enumerate() {
        assert_eq!(a.task.job_id, "job-7");
        assert_eq!(a.task.url, "http://example.com/f");
        assert_eq!(a.task.range_start, i as u64 * MAX_CHUNK_SIZE);
        assert_eq!(a.task.task_id.len(), 36);
        assert_eq!(a.task.task_id.as_bytes()[14], b'4');
    }
    assert_eq!(plan[4].task.range_end, size - 1);
    assert_ne!(plan[0].task.task_id, plan[1].task.task_id);
    let firsts = plan.iter().filter(|a| a.server_id == first).count();
    let seconds = plan.iter().filter(|a| a.server_id == second).count();
    assert_eq!((firsts, seconds), (3, 2));
}
