use codestrux::chat::commands::{
    add_attachment_context, apply_rag_prompt, chat_request_messages, embedding_model_missing_message,
    embedding_step, excerpts_context, is_code_file, last_user_index, order_candidates,
    process_sse_text, server_error_message, split_attachments, tag_chunk, user_query,
    EmbeddingStep, ModelLoad, DIRECT_INJECT_CHAR_LIMIT, NO_MODEL_LOADED,
};
use codestrux::chat::server::{BIN_CPU, BIN_VULKAN};
use codestrux::chat::types::{AttachedFile, Message};

fn msg(role: &str, content: &str) -> Message {
    Message { role: role.to_string(), content: content.to_string(), attachments: None }
}

fn contents(v: &[Message]) -> Vec<String> {
    v.iter().map(|m| m.content.clone()).collect()
}

fn file(name: &str, kind: &str, content: &str) -> AttachedFile {
    AttachedFile {
        id: "id".to_string(),
        name: name.to_string(),
        file_type: kind.to_string(),
        size: content.len() as u64,
        content: content.to_string(),
    }
}

#[test]
fn cached_binary_goes_first() {
    let names = |v: Vec<codestrux::chat::server::Candidate>| v.iter().map(|c| c.name).collect::<Vec<_>>();
    assert_eq!(names(order_candidates(None)), vec![BIN_VULKAN, BIN_CPU]);
    assert_eq!(names(order_candidates(Some(BIN_VULKAN))), vec![BIN_VULKAN, BIN_CPU]);
    assert_eq!(names(order_candidates(Some(BIN_CPU))), vec![BIN_CPU, BIN_VULKAN]);
    assert_eq!(names(order_candidates(Some("other"))), vec![BIN_VULKAN, BIN_CPU]);
}

#[test]
fn model_load_success_remembers_binary() {
    let mut l = ModelLoad::new(None);
    let first = l.current().unwrap();
    assert_eq!(first.name, BIN_VULKAN);
    l.spawn_failed("Failed to spawn".to_string());
    assert_eq!(l.current().unwrap().name, BIN_CPU);
    let info = l.loaded("org/m".to_string(), "m.gguf".to_string());
    assert_eq!((info.model_id.as_str(), info.filename.as_str(), info.backend.as_str()), ("org/m", "m.gguf", "cpu"));
    assert_eq!(l.active_bin.as_deref(), Some(BIN_CPU));
}

#[test]
fn model_load_failure_forgets_cached_binary() {
    let mut l = ModelLoad::new(Some(BIN_CPU.to_string()));
    assert_eq!(l.current().unwrap().name, BIN_CPU);
    l.health_failed("never ready");
    assert_eq!(l.active_bin, None);
    assert_eq!(l.attempts.last_error, "cpu backend: never ready");
    assert_eq!(l.current().unwrap().name, BIN_VULKAN);
    l.health_failed("still not ready");
    assert_eq!(l.active_bin, None);
    assert!(l.current().is_none());
    assert_eq!(l.failure_message(), "Failed to start llama-server. Last error: vulkan backend: still not ready");
}

#[test]
fn failure_of_other_binary_keeps_cached() {
    let mut l = ModelLoad::new(Some(BIN_VULKAN.to_string()));
    l.spawn_failed("spawn error".to_string());
    assert_eq!(l.active_bin.as_deref(), Some(BIN_VULKAN));
    l.health_failed("slow");
    assert_eq!(l.active_bin.as_deref(), Some(BIN_VULKAN));
    assert_eq!(l.failure_message(), "Failed to start llama-server. Last error: cpu backend: slow");
}

#[test]
fn embedding_steps() {
    assert!(matches!(embedding_step(true, true), EmbeddingStep::Ready));
    assert!(matches!(embedding_step(true, false), EmbeddingStep::Ready));
    assert!(matches!(embedding_step(false, true), EmbeddingStep::WaitForStartup));
    assert!(matches!(embedding_step(false, false), EmbeddingStep::Start));
    assert_eq!(
        embedding_model_missing_message("/res/models/e.gguf"),
        "Bundled embedding model not found at: /res/models/e.gguf. Ensure 'models/nomic-embed-text-v1.5.Q4_K_M.gguf' is listed under 'bundle.resources' in tauri.conf.json."
    );
}

#[test]
fn code_files() {
    for name in ["main.rs", "a/b.py", "x.js", "y.ts", "z.go", "archive.tar.c", "m.cpp", "h.h", "dir.v1/app.rs", "a.rs/", "a.rs/.", "b.go//"].iter() {
        assert!(is_code_file(name), "{}", name);
    }
    for name in ["notes.txt", ".rs", "Makefile", "x.RS", "..", "rs", "", "a.rs.md", "src.rs/readme", ".", "/", "a/..", "x.rs/.."].iter() {
        assert!(!is_code_file(name), "{}", name);
    }
    for name in ["main.rs", "a.rs/", "a.rs/.", ".rs", "..", "x.rs/..", "a.b.c", "/", ".", "dir/.hidden", "dir/file.", "trail.rs//."].iter() {
        let std_ext = std::path::Path::new(name).extension().and_then(|e| e.to_str()).map(|e| e.to_string());
        let code = ["rs", "py", "js", "ts", "go", "c", "cpp", "h"];
        let std_answer = std_ext.map(|e| code.contains(&e.as_str())).unwrap_or(false);
        assert_eq!(is_code_file(name), std_answer, "{}", name);
    }
}

#[test]
fn event_stream_tokens() {
    let text = "data: {\"choices\":[{\"delta\":{\"content\":\"Hel\"}}]}\n\ndata: {\"choices\":[{\"delta\":{\"content\":\"lo\"}}]}\n";
    let r = process_sse_text(text);
    assert_eq!(r.tokens, vec!["Hel".to_string(), "lo".to_string()]);
    assert!(!r.done);
}

#[test]
fn event_stream_done_stops_reading() {
    let text = "data: {\"choices\":[{\"delta\":{\"content\":\"a\"}}]}\r\ndata:  [DONE] \r\ndata: {\"choices\":[{\"delta\":{\"content\":\"b\"}}]}\n";
    let r = process_sse_text(text);
    assert_eq!(r.tokens, vec!["a".to_string()]);
    assert!(r.done);
}

#[test]
fn event_stream_ignores_other_lines() {
    let text = ": keep-alive\nevent: x\ndata:[DONE]\ndata: not json\ndata: {\"choices\":[{\"delta\":{\"content\":\"\"}}]}\ndata: {\"choices\":[{\"delta\":{\"role\":\"assistant\"}}]}\ndata: {\"choices\":[]}\n";
    let r = process_sse_text(text);
    assert!(r.tokens.is_empty());
    assert!(!r.done);
    let r = process_sse_text("");
    assert!(r.tokens.is_empty() && !r.done);
}

#[test]
fn last_user_message() {
    let v = vec![msg("system", "s"), msg("user", "q1"), msg("assistant", "a"), msg("user", "q2"), msg("assistant", "b")];
    assert_eq!(last_user_index(&v), Some(3));
    assert_eq!(user_query(&v), Ok("q2".to_string()));
    let none = vec![msg("system", "s")];
    assert_eq!(last_user_index(&none), None);
    assert_eq!(user_query(&none), Err("No user message found".to_string()));
}

#[test]
fn rag_prompt_replaces_only_a_final_user_message() {
    let mut v = vec![msg("system", "s"), msg("user", "q")];
    apply_rag_prompt(&mut v, "ctx + q".to_string());
    assert_eq!(contents(&v), vec!["s", "ctx + q"]);
    let mut w = vec![msg("user", "q"), msg("assistant", "a")];
    apply_rag_prompt(&mut w, "ctx".to_string());
    assert_eq!(contents(&w), vec!["q", "a"]);
}

#[test]
fn small_attachments_are_inlined() {
    let big = "x".repeat(DIRECT_INJECT_CHAR_LIMIT);
    let edge = "y".repeat(DIRECT_INJECT_CHAR_LIMIT - 1);
    let files = vec![file("a.rs", "text/rust", "fn main() {}"), file("big.txt", "text/plain", &big), file("edge.md", "text/markdown", &edge)];
    let (ctx, large) = split_attachments(&files);
    assert_eq!(large, vec![1]);
    let expected = format!(
        "### File: `a.rs` (text/rust)\n```\nfn main() {{}}\n```\n\n### File: `edge.md` (text/markdown)\n```\n{}\n```\n\n",
        edge
    );
    assert_eq!(ctx, expected);
}

#[test]
fn attachment_limit_counts_characters() {
    let accented = "é".repeat(20_000);
    assert_eq!(accented.len(), 40_000);
    let wide = "é".repeat(DIRECT_INJECT_CHAR_LIMIT);
    let files = vec![file("notes.txt", "text/plain", &accented), file("wide.txt", "text/plain", &wide)];
    let (ctx, large) = split_attachments(&files);
    assert_eq!(large, vec![1]);
    assert_eq!(ctx, format!("### File: `notes.txt` (text/plain)\n```\n{}\n```\n\n", accented));
}

#[test]
fn excerpts_and_tags() {
    assert_eq!(tag_chunk("big.txt", "part one"), "[big.txt]\npart one");
    assert_eq!(excerpts_context(&vec![]), "");
    assert_eq!(
        excerpts_context(&vec!["c1".to_string(), "c2".to_string()]),
        "### Relevant excerpts from large attached files\n\n[Excerpt 1]\nc1\n\n[Excerpt 2]\nc2\n\n"
    );
}

#[test]
fn attachment_context_goes_into_last_user_message() {
    let mut v = vec![msg("user", "old"), msg("assistant", "a"), msg("user", "what is this?")];
    let found = add_attachment_context(&mut v, "### File: `a` (t)\n```\nX\n```\n\n", "", "", "what is this?");
    assert!(found);
    assert_eq!(
        contents(&v),
        vec!["old", "a", "### File: `a` (t)\n```\nX\n```\n---\nUser question: what is this?"]
    );
    let mut w = vec![msg("user", "q")];
    assert!(!add_attachment_context(&mut w, "  ", "\n", "", "q"));
    assert_eq!(contents(&w), vec!["q"]);
}

#[test]
fn wire_messages_carry_role_and_content_only() {
    let mut m = msg("user", "hi");
    m.attachments = Some(vec![file("a", "t", "c")]);
    let wire = chat_request_messages(&vec![msg("system", "s"), m]);
    assert_eq!(wire, vec![("system".to_string(), "s".to_string()), ("user".to_string(), "hi".to_string())]);
}

#[test]
fn chat_errors() {
    assert_eq!(NO_MODEL_LOADED, "No local model is loaded.");
    assert_eq!(server_error_message(503, "loading model"), "llama-server error 503: loading model");
}
