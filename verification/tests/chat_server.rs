use codestrux::chat::logging::log_line;
use codestrux::chat::server::{
    chat_server_args, embedding_failure_message, embedding_server_args, health_timeout_message,
    health_url, resolve_candidates, LaunchLoop, BIN_CPU, BIN_VULKAN, EMBEDDING_PORT, SERVER_PORT,
};

#[test]
fn candidates_prefer_vulkan() {
    let c = resolve_candidates();
    assert_eq!(c.len(), 2);
    assert_eq!((c[0].name, c[0].backend, c[0].timeout_secs), (BIN_VULKAN, "vulkan", 60));
    assert_eq!((c[1].name, c[1].backend, c[1].timeout_secs), (BIN_CPU, "cpu", 120));
    assert_eq!(BIN_VULKAN, "llama-server-vulkan");
    assert_eq!(BIN_CPU, "llama-server-cpu");
}

#[test]
fn server_command_lines() {
    assert_eq!(
        chat_server_args("/m/x.gguf"),
        vec!["--model", "/m/x.gguf", "--port", "28765", "--host", "127.0.0.1", "--ctx-size", "8192", "--embeddings"]
    );
    assert_eq!(
        embedding_server_args("/r/e.gguf"),
        vec!["--model", "/r/e.gguf", "--port", "28766", "--host", "127.0.0.1", "--ctx-size", "2048", "--embeddings", "--no-mmap"]
    );
}

#[test]
fn health_endpoints() {
    assert_eq!(health_url(SERVER_PORT), "http://127.0.0.1:28765/health");
    assert_eq!(health_url(EMBEDDING_PORT), "http://127.0.0.1:28766/health");
    assert_eq!(
        health_timeout_message(28765, 60),
        "llama-server on port 28765 did not become ready within 60 s."
    );
}

#[test]
fn launch_loop_walks_candidates() {
    let mut l = LaunchLoop::new(resolve_candidates());
    assert_eq!(l.current().map(|c| c.name), Some(BIN_VULKAN));
    l.fail("no vulkan".to_string());
    assert_eq!(l.current().map(|c| c.name), Some(BIN_CPU));
    l.fail("timeout".to_string());
    assert!(l.current().is_none());
    assert_eq!(embedding_failure_message(&l.last_error), "Failed to start embedding server: timeout");
}

#[test]
fn log_lines() {
    assert_eq!(log_line(1700000000, "Embedding server is ready."), "[1700000000] Embedding server is ready.");
    assert_eq!(log_line(0, ""), "[0] ");
}
