//! Local GGUF inference through a bundled llama-server process: the data
//! exchanged with the frontend, the server binaries and their arguments, the
//! model-loading fallback from the Vulkan to the CPU binary, and the prompt
//! and stream handling of a chat.

pub mod commands;
pub mod logging;
pub mod server;
pub mod types;
