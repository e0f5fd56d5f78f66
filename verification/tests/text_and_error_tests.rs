use distributed_downloader::config::{join_host_port, ClientConfig, ManagerConfig, ServerConfig};
use distributed_downloader::error::DistributedDownloaderError;
use distributed_downloader::text::{parse_u64, skip_chars, starts_with, str_eq, u64_to_decimal};

#[test]
fn decimal_rendering() {
    assert_eq!(u64_to_decimal(0), "0");
    assert_eq!(u64_to_decimal(7), "7");
    assert_eq!(u64_to_decimal(10), "10");
    assert_eq!(u64_to_decimal(1234567890), "1234567890");
    assert_eq!(u64_to_decimal(u64::MAX), "18446744073709551615");
}

#[test]
fn decimal_parsing_follows_str_parse() {
    for text in ["", "+", "0", "+5", "-5", "007", "12a", " 1", "18446744073709551615", "18446744073709551616", "99999999999999999999999", "١"] {
        assert_eq!(parse_u64(text), text.parse::<u64>().ok(), "input {:?}", text);
    }
}

#[test]
fn decimal_roundtrip() {
    for n in [0u64, 1, 9, 10, 99, 100, 65535, 3145728, u64::MAX - 1, u64::MAX] {
        assert_eq!(parse_u64(&u64_to_decimal(n)), Some(n));
    }
}

#[test]
fn string_helpers() {
    assert!(starts_with("file_info:{}", "file_info:"));
    assert!(!starts_with("file_inf", "file_info:"));
    assert!(starts_with("abc", ""));
    assert_eq!(skip_chars("héllo", 2), "llo");
    assert!(str_eq("go_ahead", "go_ahead"));
    assert!(!str_eq("go_ahead", "go_ahea"));
}

#[test]
fn error_display_texts() {
    let cases = [
        (DistributedDownloaderError::from_io_error("disk full".to_string()), "IO错误: disk full"),
        (DistributedDownloaderError::HttpError("x".to_string()), "HTTP错误: x"),
        (DistributedDownloaderError::NetworkError("y".to_string()), "网络错误: y"),
        (DistributedDownloaderError::ProtocolError("z".to_string()), "协议错误: z"),
        (DistributedDownloaderError::DownloadError("w".to_string()), "下载错误: w"),
    ];
    for (e, text) in cases.iter() {
        assert_eq!(e.to_display_string(), *text);
    }
}

#[test]
fn errors_from_outside_failures() {
    assert_eq!(
        DistributedDownloaderError::from_http_client_error("refused").to_display_string(),
        "网络错误: HTTP请求错误: refused"
    );
    assert_eq!(
        DistributedDownloaderError::from_join_error("cancelled").to_display_string(),
        "网络错误: 任务连接错误: cancelled"
    );
    assert_eq!(
        DistributedDownloaderError::from_decode_error("bad tag").to_display_string(),
        "协议错误: Protobuf解码错误: bad tag"
    );
}

#[test]
fn addresses_from_configs() {
    let m = ManagerConfig { manager_addr_ipv4: "127.0.0.1".to_string(), manager_port: 5000 };
    assert_eq!(m.listen_address(), "127.0.0.1:5000");
    let s = ServerConfig {
        manager_addr_ipv4: "10.0.0.2".to_string(),
        manager_port: 65535,
        tmp_dir: "./tmp".to_string(),
        threads_num: 4,
        target_dir: "./target".to_string(),
    };
    assert_eq!(s.manager_endpoint(), "http://10.0.0.2:65535");
    let c = ClientConfig {
        manager_addr_ipv4: "127.0.0.1".to_string(),
        manager_port: 0,
        tmp_dir: "./tmp".to_string(),
        target_dir: "./target".to_string(),
    };
    assert_eq!(join_host_port(&c.manager_addr_ipv4, c.manager_port), "127.0.0.1:0");
}
