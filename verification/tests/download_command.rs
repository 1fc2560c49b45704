use codestrux::download::{
    choose_chunks, chunk_failed_message, download_outcome, next_attempt, probe_response,
    resolve_url, safe_model_dir, transfer_chunks, transfer_mode, DownloadOutcome,
};

#[test]
fn size_classes() {
    assert_eq!(choose_chunks(0), 8);
    assert_eq!(choose_chunks(999_999_999), 8);
    assert_eq!(choose_chunks(1_000_000_000), 16);
    assert_eq!(choose_chunks(4_999_999_999), 16);
    assert_eq!(choose_chunks(5_000_000_000), 24);
    assert_eq!(choose_chunks(u64::MAX), 24);
}

#[test]
fn transfer_choice() {
    assert_eq!(transfer_chunks(false, 10_000_000_000), 1);
    assert_eq!(transfer_chunks(true, 0), 1);
    assert_eq!(transfer_chunks(true, 10), 8);
    assert_eq!(transfer_mode(8), "parallel");
    assert_eq!(transfer_mode(1), "stream");
}

#[test]
fn model_locations() {
    assert_eq!(
        resolve_url("TheBloke/Mistral-7B-GGUF", "mistral.Q4_K_M.gguf"),
        "https://huggingface.co/TheBloke/Mistral-7B-GGUF/resolve/main/mistral.Q4_K_M.gguf"
    );
    assert_eq!(safe_model_dir("TheBloke/Mistral-7B-GGUF"), "TheBloke__Mistral-7B-GGUF");
    assert_eq!(safe_model_dir("a/b/c"), "a__b__c");
    assert_eq!(safe_model_dir("plain"), "plain");
}

#[test]
fn single_probe() {
    let url = "https://cdn/x".to_string();
    assert_eq!(
        probe_response(false, 404, "404 Not Found", url.clone(), None, None),
        Err("Probe failed: HTTP 404 Not Found".to_string())
    );
    assert_eq!(probe_response(true, 206, "206 Partial Content", url.clone(), Some("bytes 0-0/4242"), Some(1)), Ok((url.clone(), 4242, true)));
    assert_eq!(probe_response(true, 200, "200 OK", url.clone(), None, Some(99)), Ok((url.clone(), 99, false)));
    assert_eq!(probe_response(true, 206, "206 Partial Content", url.clone(), Some("bytes 0-0/*"), Some(5)), Ok((url.clone(), 5, true)));
    assert_eq!(probe_response(true, 200, "200 OK", url.clone(), None, None), Ok((url, 0, false)));
}

#[test]
fn chunk_retries() {
    assert_eq!(next_attempt(0), (1, false));
    assert_eq!(next_attempt(1), (2, false));
    assert_eq!(next_attempt(2), (3, true));
    assert_eq!(chunk_failed_message(4, "503 Service Unavailable"), "Chunk 4 failed: HTTP 503 Service Unavailable");
}

#[test]
fn outcomes() {
    assert!(matches!(download_outcome(true, true), DownloadOutcome::Failed));
    assert!(matches!(download_outcome(false, true), DownloadOutcome::Cancelled));
    assert!(matches!(download_outcome(false, false), DownloadOutcome::Completed));
}
