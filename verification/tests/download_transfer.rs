use codestrux::download::client::is_allowed_host;
use codestrux::download::transfer::{
    byte_range_header, download_failed, plan_chunks, progress_finished, ChunkTransfer,
    ConnectAction, ConnectOutcome, FinishAction,
};

#[test]
fn plans_for_small_files() {
    assert_eq!(plan_chunks(10, 3), vec![(0, 3), (4, 7), (8, 9)]);
    assert_eq!(plan_chunks(10, 4), vec![(0, 2), (3, 5), (6, 8), (9, 9)]);
    assert_eq!(plan_chunks(2, 5), vec![(0, 0), (1, 1)]);
    assert_eq!(plan_chunks(1, 1), vec![(0, 0)]);
    assert_eq!(plan_chunks(9, 4), vec![(0, 2), (3, 5), (6, 8)]);
}

#[test]
fn plans_tile_the_file() {
    for total in [1u64, 2, 7, 100, 1000, 4096, 1_000_003].iter() {
        for chunks in 1u64..=24 {
            let plan = plan_chunks(*total, chunks);
            assert!(!plan.is_empty());
            assert!(plan.len() as u64 <= chunks);
            assert_eq!(plan[0].0, 0);
            assert_eq!(plan[plan.len() - 1].1, total - 1);
            for w in plan.windows(2) {
                assert_eq!(w[1].0, w[0].1 + 1);
            }
            for r in plan.iter() {
                assert!(r.0 <= r.1);
            }
        }
    }
}

#[test]
fn range_headers() {
    assert_eq!(byte_range_header(0, 268435455), "bytes=0-268435455");
    assert_eq!(ChunkTransfer::new(3, 100, 199).range_header(), "bytes=100-199");
}

#[test]
fn connect_failures_are_retried_then_fatal() {
    let mut c = ChunkTransfer::new(3, 100, 199);
    assert_eq!(c.retry_delay_ms(), None);
    assert!(matches!(c.on_connect(&ConnectOutcome::Error), ConnectAction::Retry));
    assert_eq!(c.attempts, 1);
    assert_eq!(c.retry_delay_ms(), Some(500));
    assert!(matches!(c.on_connect(&ConnectOutcome::Error), ConnectAction::Retry));
    assert_eq!(c.retry_delay_ms(), Some(1000));
    match c.on_connect(&ConnectOutcome::Error) {
        ConnectAction::Fail(m) => assert_eq!(m, "Chunk 3 failed to connect after 3 attempts"),
        _ => panic!("the third connect failure is fatal"),
    }
}

#[test]
fn bad_responses_are_fatal() {
    let mut c = ChunkTransfer::new(7, 0, 9);
    let redirected = ConnectOutcome::Response {
        code: 200,
        status: "200 OK".to_string(),
        host: Some("evil.com".to_string()),
    };
    match c.on_connect(&redirected) {
        ConnectAction::Fail(m) => assert_eq!(m, "Chunk 7 redirected to unexpected host: evil.com"),
        _ => panic!("a foreign host is fatal"),
    }
    let refused = ConnectOutcome::Response {
        code: 416,
        status: "416 Range Not Satisfiable".to_string(),
        host: Some("hf.co".to_string()),
    };
    match c.on_connect(&refused) {
        ConnectAction::Fail(m) => assert_eq!(m, "Chunk 7 got unexpected status 416 Range Not Satisfiable"),
        _ => panic!("a bad status is fatal"),
    }
    assert_eq!(c.attempts, 0);
    let ok = ConnectOutcome::Response { code: 206, status: "206 Partial Content".to_string(), host: None };
    assert!(matches!(c.on_connect(&ok), ConnectAction::Stream));
    let cdn = ConnectOutcome::Response {
        code: 206,
        status: "206 Partial Content".to_string(),
        host: Some("cdn-lfs-us-1.hf.co".to_string()),
    };
    assert!(is_allowed_host("cdn-lfs-us-1.hf.co"));
    assert!(matches!(c.on_connect(&cdn), ConnectAction::Stream));
}

#[test]
fn throttling_is_retried_from_the_current_byte() {
    let mut c = ChunkTransfer::new(5, 1000, 1999);
    c.on_data(400);
    let too_many = ConnectOutcome::Response {
        code: 429,
        status: "429 Too Many Requests".to_string(),
        host: Some("cdn-lfs-us-1.hf.co".to_string()),
    };
    let unavailable = ConnectOutcome::Response {
        code: 503,
        status: "503 Service Unavailable".to_string(),
        host: Some("cdn-lfs-us-1.hf.co".to_string()),
    };
    assert!(matches!(c.on_connect(&too_many), ConnectAction::Retry));
    assert_eq!(c.attempts, 1);
    assert_eq!(c.retry_delay_ms(), Some(500));
    assert_eq!(c.range_header(), "bytes=1400-1999");
    assert!(matches!(c.on_connect(&unavailable), ConnectAction::Retry));
    assert_eq!(c.attempts, 2);
    assert_eq!(c.range_header(), "bytes=1400-1999");
    let ok = ConnectOutcome::Response { code: 206, status: "206 Partial Content".to_string(), host: None };
    assert!(matches!(c.on_connect(&ok), ConnectAction::Stream));
    assert_eq!(c.current_start, 1400);
    match c.on_connect(&too_many) {
        ConnectAction::Fail(m) => assert_eq!(m, "Chunk 5 got unexpected status 429 Too Many Requests"),
        _ => panic!("throttling past the connect budget is fatal"),
    }
}

#[test]
fn retries_resume_after_written_bytes() {
    let mut c = ChunkTransfer::new(3, 100, 199);
    c.on_data(30);
    c.on_data(20);
    assert_eq!(c.current_start, 150);
    assert!(matches!(c.on_stream_end(true), FinishAction::Retry));
    assert_eq!(c.range_header(), "bytes=150-199");
    assert!(matches!(c.on_stream_end(false), FinishAction::Done));
}

#[test]
fn stream_failures_share_the_budget() {
    let mut c = ChunkTransfer::new(3, 150, 199);
    for expected in 1u32..=5 {
        assert!(matches!(c.on_stream_end(true), FinishAction::Retry));
        assert_eq!(c.attempts, expected);
    }
    assert_eq!(c.retry_delay_ms(), Some(4000));
    match c.on_stream_end(true) {
        FinishAction::Fail(m) => assert_eq!(m, "Chunk 3 stream failed after 6 retries (byte 150)"),
        _ => panic!("the sixth failure is fatal"),
    }
    let mut d = ChunkTransfer::new(1, 0, 9);
    assert!(matches!(d.on_stream_end(true), FinishAction::Retry));
    assert!(matches!(d.on_stream_end(true), FinishAction::Retry));
    match d.on_connect(&ConnectOutcome::Error) {
        ConnectAction::Fail(m) => assert_eq!(m, "Chunk 1 failed to connect after 3 attempts"),
        _ => panic!("stream failures count towards the connect budget"),
    }
}

#[test]
fn chunk_messages() {
    assert_eq!(ChunkTransfer::new(12, 0, 1).writer_died_message(), "Chunk 12 writer died unexpectedly");
    assert_eq!(download_failed("500 Internal Server Error"), "Download failed: HTTP 500 Internal Server Error");
}

#[test]
fn progress_stops_at_known_total() {
    assert!(!progress_finished(0, 5));
    assert!(progress_finished(10, 10));
    assert!(progress_finished(10, 11));
    assert!(!progress_finished(10, 9));
}
