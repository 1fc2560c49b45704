//! Shared data types for local GGUF inference.

use vstd::prelude::*;

verus! {

/// A file attached to a user message.
pub struct AttachedFile {
    pub id: String,
    pub name: String,
    /// MIME type or kind reported by the frontend.
    pub file_type: String,
    pub size: u64,
    pub content: String,
}

/// A single message in a chat conversation, shaped like an entry of the
/// OpenAI `/v1/chat/completions` messages array.
pub struct Message {
    /// `"user"`, `"assistant"`, or `"system"`.
    pub role: String,
    pub content: String,
    /// Optional file attachments for user messages.
    pub attachments: Option<Vec<AttachedFile>>,
}

/// Metadata for the model currently running in llama-server.
pub struct LoadedModelInfo {
    pub model_id: String,
    pub filename: String,
    /// Which backend is running: `"vulkan"` or `"cpu"`.
    pub backend: String,
}

} // verus!
