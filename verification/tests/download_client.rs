use codestrux::download::client::{
    authorization_header, choose_chunks, is_allowed_host, parse_content_range_total, parse_u64,
    probe_after_head, probe_after_range, HeadOutcome, MAX_FILE_BYTES, MAX_PARALLEL_CHUNKS,
    TARGET_CHUNK_SIZE,
};
use codestrux::text::chars_of;

#[test]
fn allowed_hosts() {
    assert!(is_allowed_host("hf.co"));
    assert!(is_allowed_host("cdn-lfs-us-1.hf.co"));
    assert!(is_allowed_host("a.b.hf.co"));
    assert!(!is_allowed_host("evilhf.co"));
    assert!(!is_allowed_host("hf.co.evil.com"));
    assert!(!is_allowed_host(".hf.c"));
    assert!(!is_allowed_host(""));
    assert!(!is_allowed_host("huggingface.co"));
}

#[test]
fn chunk_counts_scale_with_size() {
    assert_eq!(choose_chunks(0), 1);
    assert_eq!(choose_chunks(1), 1);
    assert_eq!(choose_chunks(TARGET_CHUNK_SIZE), 1);
    assert_eq!(choose_chunks(TARGET_CHUNK_SIZE + 1), 2);
    assert_eq!(choose_chunks(7 * TARGET_CHUNK_SIZE), 7);
    assert_eq!(choose_chunks(4 * 1024 * 1024 * 1024), 16);
    assert_eq!(choose_chunks(4 * 1024 * 1024 * 1024 + 1), MAX_PARALLEL_CHUNKS);
    assert_eq!(choose_chunks(MAX_FILE_BYTES), MAX_PARALLEL_CHUNKS);
    assert_eq!(choose_chunks(u64::MAX), MAX_PARALLEL_CHUNKS);
}

#[test]
fn u64_parsing_matches_std() {
    let samples = ["0", "42", "+42", "+", "", "-1", "12a", "18446744073709551615", "18446744073709551616", "007", " 1"];
    for sample in samples.iter() {
        assert_eq!(parse_u64(&chars_of(sample)), sample.parse::<u64>().ok(), "input {:?}", sample);
    }
}

#[test]
fn content_range_totals() {
    assert_eq!(parse_content_range_total(Some("bytes 0-0/12345")), 12345);
    assert_eq!(parse_content_range_total(Some("bytes 0-0/*")), 0);
    assert_eq!(parse_content_range_total(Some("12/")), 0);
    assert_eq!(parse_content_range_total(Some("777")), 777);
    assert_eq!(parse_content_range_total(Some("a/b/99")), 99);
    assert_eq!(parse_content_range_total(Some("bytes 0-0/99999999999999999999")), 0);
    assert_eq!(parse_content_range_total(None), 0);
}

fn finished(o: HeadOutcome) -> Result<(String, u64, bool), String> {
    match o {
        HeadOutcome::Finished(r) => r,
        HeadOutcome::RangeProbe { .. } => panic!("expected a finished probe"),
    }
}

#[test]
fn head_probe_errors() {
    let url = "https://cdn-lfs.hf.co/x".to_string();
    assert_eq!(
        finished(probe_after_head(false, "404 Not Found", url.clone(), Some("cdn-lfs.hf.co"), None, Some(10))),
        Err("Probe failed: HTTP 404 Not Found".to_string())
    );
    assert_eq!(
        finished(probe_after_head(true, "200 OK", "https://evil.com/x".to_string(), Some("evil.com"), None, Some(10))),
        Err("Redirected to unexpected host: evil.com".to_string())
    );
    assert_eq!(
        finished(probe_after_head(true, "200 OK", url, Some("cdn-lfs.hf.co"), None, Some(MAX_FILE_BYTES + 1))),
        Err("File too large: 107374182401 bytes exceeds 107374182400-byte limit".to_string())
    );
}

#[test]
fn head_probe_answers() {
    let url = "https://cdn-lfs.hf.co/x".to_string();
    assert_eq!(
        finished(probe_after_head(true, "200 OK", url.clone(), Some("cdn-lfs.hf.co"), Some("bytes"), Some(5000))),
        Ok((url.clone(), 5000, true))
    );
    assert_eq!(
        finished(probe_after_head(true, "200 OK", url.clone(), None, Some("none"), Some(MAX_FILE_BYTES))),
        Ok((url.clone(), MAX_FILE_BYTES, false))
    );
    match probe_after_head(true, "200 OK", url.clone(), Some("hf.co"), Some("bytes"), Some(0)) {
        HeadOutcome::RangeProbe { resolved } => assert_eq!(resolved, url),
        HeadOutcome::Finished(_) => panic!("a zero length needs the range probe"),
    }
    match probe_after_head(true, "200 OK", url.clone(), Some("hf.co"), None, None) {
        HeadOutcome::RangeProbe { resolved } => assert_eq!(resolved, url),
        HeadOutcome::Finished(_) => panic!("a missing length needs the range probe"),
    }
}

#[test]
fn range_probe_answers() {
    let url = "https://hf.co/f".to_string();
    assert_eq!(probe_after_range(url.clone(), 200, Some("bytes 0-0/10")), Ok((url.clone(), 0, false)));
    assert_eq!(probe_after_range(url.clone(), 206, Some("bytes 0-0/777")), Ok((url.clone(), 777, true)));
    assert_eq!(probe_after_range(url.clone(), 206, None), Ok((url.clone(), 0, true)));
    assert_eq!(
        probe_after_range(url, 206, Some("bytes 0-0/107374182401")),
        Err("File too large: 107374182401 bytes exceeds 107374182400-byte limit".to_string())
    );
}

#[test]
fn authorization_values() {
    assert!(matches!(authorization_header(None), Ok(None)));
    match authorization_header(Some("hf_abc123")) {
        Ok(Some(h)) => assert_eq!(h, "Bearer hf_abc123"),
        _ => panic!("a plain token is valid"),
    }
    assert_eq!(authorization_header(Some("tab\tok")), Ok(Some("Bearer tab\tok".to_string())));
    assert_eq!(authorization_header(Some("tökén")), Ok(Some("Bearer tökén".to_string())));
    let msg = "HuggingFace token contains invalid characters".to_string();
    assert_eq!(authorization_header(Some("bad\ntoken")).err(), Some(msg.clone()));
    assert_eq!(authorization_header(Some("del\u{7f}")).err(), Some(msg));
}

#[test]
fn chunks_stay_within_target_size() {
    for total in [1u64, 1000, TARGET_CHUNK_SIZE - 1, TARGET_CHUNK_SIZE, 3 * TARGET_CHUNK_SIZE + 5, 16 * TARGET_CHUNK_SIZE].iter() {
        let c = choose_chunks(*total);
        assert!((total + c - 1) / c <= TARGET_CHUNK_SIZE, "total {}", total);
    }
    assert_eq!(choose_chunks(16 * TARGET_CHUNK_SIZE + 1), MAX_PARALLEL_CHUNKS);
}
