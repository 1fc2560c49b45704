//! llama-server binaries, their command lines, health-check endpoints and
//! the fallback from one binary to the next.

use vstd::prelude::*;

use crate::text::{decimal, push_decimal, push_str, string_of};

verus! {

pub const SERVER_PORT: u16 = 28765;

pub const EMBEDDING_PORT: u16 = 28766;

/// Health-check timeout for the Vulkan binary, in seconds.
pub const VULKAN_HEALTH_TIMEOUT_SECS: u64 = 60;

/// Health-check timeout for the CPU binary, in seconds.
pub const CPU_HEALTH_TIMEOUT_SECS: u64 = 120;

/// Health-check timeout for the embedding server, in seconds.
pub const EMBEDDING_HEALTH_TIMEOUT_SECS: u64 = 30;

/// Interval between health polls, in milliseconds.
pub const HEALTH_POLL_MS: u64 = 250;

pub const CTX_SIZE: u32 = 8192;

pub const BIN_VULKAN: &'static str = "llama-server-vulkan";

pub const BIN_CPU: &'static str = "llama-server-cpu";

/// A llama-server binary to try: sidecar name, backend label, and how long
/// its health check may take.
#[derive(Clone, Copy)]
pub struct Candidate {
    pub name: &'static str,
    pub backend: &'static str,
    pub timeout_secs: u64,
}

pub open spec fn is_vulkan(c: Candidate) -> bool {
    c.name@ == "llama-server-vulkan"@ && c.backend@ == "vulkan"@ && c.timeout_secs == VULKAN_HEALTH_TIMEOUT_SECS
}

pub open spec fn is_cpu(c: Candidate) -> bool {
    c.name@ == "llama-server-cpu"@ && c.backend@ == "cpu"@ && c.timeout_secs == CPU_HEALTH_TIMEOUT_SECS
}

/// The candidate list `resolve_candidates` returns.
pub open spec fn resolve_candidates_spec() -> Seq<Candidate> {
    seq![
        Candidate { name: BIN_VULKAN, backend: "vulkan", timeout_secs: VULKAN_HEALTH_TIMEOUT_SECS },
        Candidate { name: BIN_CPU, backend: "cpu", timeout_secs: CPU_HEALTH_TIMEOUT_SECS },
    ]
}

/// Both binaries in preference order: Vulkan first, then CPU.
pub fn resolve_candidates() -> (v: Vec<Candidate>)
    ensures
        v@ == resolve_candidates_spec(),
        v@.len() == 2,
        is_vulkan(v@[0]),
        is_cpu(v@[1]),
{
    let mut v: Vec<Candidate> = Vec::new();
    v.push(Candidate { name: BIN_VULKAN, backend: "vulkan", timeout_secs: VULKAN_HEALTH_TIMEOUT_SECS });
    v.push(Candidate { name: BIN_CPU, backend: "cpu", timeout_secs: CPU_HEALTH_TIMEOUT_SECS });
    assert(v@ =~= resolve_candidates_spec());
    v
}

pub open spec fn views(v: Seq<String>) -> Seq<Seq<char>> {
    v.map_values(|s: String| s@)
}

fn push_owned(v: &mut Vec<String>, s: String)
    ensures
        views(final(v)@) == views(old(v)@).push(s@),
{
    v.push(s);
    assert(views(final(v)@) =~= views(old(v)@).push(s@));
}

fn push_string(v: &mut Vec<String>, s: &str)
    ensures
        views(final(v)@) == views(old(v)@).push(s@),
{
    push_owned(v, String::from_str(s));
}

/// Arguments of the chat server: the model, its port, loopback only, an
/// 8192-token context, embeddings enabled.
pub fn chat_server_args(model_path: &str) -> (args: Vec<String>)
    ensures
        views(args@) == seq![
            "--model"@, model_path@, "--port"@, decimal(SERVER_PORT as nat), "--host"@, "127.0.0.1"@,
            "--ctx-size"@, decimal(CTX_SIZE as nat), "--embeddings"@,
        ],
{
    let mut v: Vec<String> = Vec::new();
    assert(views(v@) =~= Seq::<Seq<char>>::empty());
    push_string(&mut v, "--model");
    push_string(&mut v, model_path);
    push_string(&mut v, "--port");
    push_owned(&mut v, crate::text::decimal_string(SERVER_PORT as u64));
    push_string(&mut v, "--host");
    push_string(&mut v, "127.0.0.1");
    push_string(&mut v, "--ctx-size");
    push_owned(&mut v, crate::text::decimal_string(CTX_SIZE as u64));
    push_string(&mut v, "--embeddings");
    assert(views(v@) =~= seq![
        "--model"@, model_path@, "--port"@, decimal(SERVER_PORT as nat), "--host"@, "127.0.0.1"@,
        "--ctx-size"@, decimal(CTX_SIZE as nat), "--embeddings"@,
    ]);
    v
}

/// Arguments of the embedding server: a smaller 2048-token context and no
/// memory mapping of the model file.
pub fn embedding_server_args(model_path: &str) -> (args: Vec<String>)
    ensures
        views(args@) == seq![
            "--model"@, model_path@, "--port"@, decimal(EMBEDDING_PORT as nat), "--host"@, "127.0.0.1"@,
            "--ctx-size"@, "2048"@, "--embeddings"@, "--no-mmap"@,
        ],
{
    let mut v: Vec<String> = Vec::new();
    assert(views(v@) =~= Seq::<Seq<char>>::empty());
    push_string(&mut v, "--model");
    push_string(&mut v, model_path);
    push_string(&mut v, "--port");
    push_owned(&mut v, crate::text::decimal_string(EMBEDDING_PORT as u64));
    push_string(&mut v, "--host");
    push_string(&mut v, "127.0.0.1");
    push_string(&mut v, "--ctx-size");
    push_string(&mut v, "2048");
    push_string(&mut v, "--embeddings");
    push_string(&mut v, "--no-mmap");
    assert(views(v@) =~= seq![
        "--model"@, model_path@, "--port"@, decimal(EMBEDDING_PORT as nat), "--host"@, "127.0.0.1"@,
        "--ctx-size"@, "2048"@, "--embeddings"@, "--no-mmap"@,
    ]);
    v
}

pub open spec fn health_url_spec(port: u16) -> Seq<char> {
    "http://127.0.0.1:"@ + decimal(port as nat) + "/health"@
}

/// Health endpoint of a llama-server on `port`.
pub fn health_url(port: u16) -> (u: String)
    ensures
        u@ == health_url_spec(port),
{
    let mut v: Vec<char> = Vec::new();
    push_str(&mut v, "http://127.0.0.1:");
    push_decimal(&mut v, port as u64);
    push_str(&mut v, "/health");
    assert(v@ =~= health_url_spec(port));
    string_of(&v)
}

pub open spec fn health_timeout_spec(port: u16, secs: u64) -> Seq<char> {
    "llama-server on port "@ + decimal(port as nat) + " did not become ready within "@ + decimal(secs as nat)
        + " s."@
}

/// Error when a server is not healthy before its deadline.
pub fn health_timeout_message(port: u16, secs: u64) -> (m: String)
    ensures
        m@ == health_timeout_spec(port, secs),
{
    let mut v: Vec<char> = Vec::new();
    push_str(&mut v, "llama-server on port ");
    push_decimal(&mut v, port as u64);
    push_str(&mut v, " did not become ready within ");
    push_decimal(&mut v, secs);
    push_str(&mut v, " s.");
    assert(v@ =~= health_timeout_spec(port, secs));
    string_of(&v)
}

// ── Trying binaries in turn ──────────────────────────────────────────────────

/// Candidates tried one after the other; the error of the latest failure is
/// kept for the final message.
pub struct LaunchLoop {
    pub candidates: Vec<Candidate>,
    pub next: usize,
    pub last_error: String,
}

impl LaunchLoop {
    pub fn new(candidates: Vec<Candidate>) -> (l: Self)
        ensures
            l.candidates@ == candidates@,
            l.next == 0,
            l.last_error@ == Seq::<char>::empty(),
    {
        LaunchLoop { candidates, next: 0, last_error: String::new() }
    }

    /// The candidate to try now, or `None` when all have failed.
    pub fn current(&self) -> (c: Option<Candidate>)
        ensures
            self.next < self.candidates@.len() ==> c == Some(self.candidates@[self.next as int]),
            self.next >= self.candidates@.len() ==> c is None,
    {
        if self.next < self.candidates.len() {
            Some(self.candidates[self.next])
        } else {
            None
        }
    }

    /// The current candidate failed with `error`; move on to the next one.
    pub fn fail(&mut self, error: String)
        requires
            old(self).next < old(self).candidates@.len(),
        ensures
            final(self).candidates@ == old(self).candidates@,
            final(self).next == old(self).next + 1,
            final(self).last_error == error,
    {
        let n = self.candidates.len();
        assert(self.next < n);
        self.last_error = error;
        self.next = self.next + 1;
    }
}

pub open spec fn embedding_failure_spec(last_error: Seq<char>) -> Seq<char> {
    "Failed to start embedding server: "@ + last_error
}

/// Error once every binary failed to serve embeddings.
pub fn embedding_failure_message(last_error: &str) -> (m: String)
    ensures
        m@ == embedding_failure_spec(last_error@),
{
    let mut v: Vec<char> = Vec::new();
    push_str(&mut v, "Failed to start embedding server: ");
    push_str(&mut v, last_error);
    string_of(&v)
}

} // verus!
