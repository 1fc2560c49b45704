//! Model downloads from HuggingFace: file locations, transfer mode, the
//! size probe and the chunk retry rule of the whole-file download command.
//! The submodules hold the range-request transfer with its client checks,
//! retry state machine and speed tracking.

pub mod client;
pub mod transfer;
pub mod types;

use vstd::prelude::*;

use crate::download::client::{after_last_slash, last_segment, parse_u64, parse_u64_spec};
use crate::download::transfer::{chunk_message_start, chunk_prefix};
use crate::text::{chars_of, push_str, string_of};

verus! {

pub const MAX_PARALLEL_CHUNKS: u64 = 24;

pub const MAX_RETRIES: usize = 3;

/// Chunk count by file size: 8 below 1 GB (10^9 bytes), 16 below 5 GB,
/// otherwise 24.
pub open spec fn size_class_chunks(total: nat) -> nat {
    if total < 1_000_000_000 {
        8
    } else if total < 5_000_000_000 {
        16
    } else {
        MAX_PARALLEL_CHUNKS as nat
    }
}

/// Dynamic chunk count based on file size.
pub fn choose_chunks(total: u64) -> (c: u64)
    ensures
        c == size_class_chunks(total as nat),
{
    if total < 1_000_000_000 {
        8
    } else if total < 5_000_000_000 {
        16
    } else {
        MAX_PARALLEL_CHUNKS
    }
}

/// Parallel ranges only when the server accepts them and the size is known.
pub open spec fn transfer_chunks_spec(accepts_ranges: bool, total: nat) -> nat {
    if accepts_ranges && total > 0 { size_class_chunks(total) } else { 1 }
}

pub fn transfer_chunks(accepts_ranges: bool, total: u64) -> (c: u64)
    ensures
        c == transfer_chunks_spec(accepts_ranges, total as nat),
{
    if accepts_ranges && total > 0 {
        choose_chunks(total)
    } else {
        1
    }
}

/// `"parallel"` when more than one chunk is used, else `"stream"`.
pub fn transfer_mode(chunks: u64) -> (m: &'static str)
    ensures
        chunks > 1 ==> m@ == "parallel"@,
        chunks <= 1 ==> m@ == "stream"@,
{
    if chunks > 1 { "parallel" } else { "stream" }
}

pub open spec fn resolve_url_spec(model_id: Seq<char>, filename: Seq<char>) -> Seq<char> {
    "https://huggingface.co/"@ + model_id + "/resolve/main/"@ + filename
}

/// Download URL of `filename` in repository `model_id`.
pub fn resolve_url(model_id: &str, filename: &str) -> (u: String)
    ensures
        u@ == resolve_url_spec(model_id@, filename@),
{
    let mut v: Vec<char> = Vec::new();
    push_str(&mut v, "https://huggingface.co/");
    push_str(&mut v, model_id);
    push_str(&mut v, "/resolve/main/");
    push_str(&mut v, filename);
    string_of(&v)
}

/// `s` with every `'/'` replaced by `"__"`.
pub open spec fn replace_slashes(s: Seq<char>) -> Seq<char>
    decreases s.len(),
{
    if s.len() == 0 {
        s
    } else if s.last() == '/' {
        replace_slashes(s.drop_last()) + seq!['_', '_']
    } else {
        replace_slashes(s.drop_last()).push(s.last())
    }
}

/// Directory name for a model repository id: `org/name` becomes `org__name`.
pub fn safe_model_dir(model_id: &str) -> (d: String)
    ensures
        d@ == replace_slashes(model_id@),
{
    let cs = chars_of(model_id);
    let mut v: Vec<char> = Vec::new();
    let mut i: usize = 0;
    while i < cs.len()
        invariant
            i <= cs.len(),
            v@ == replace_slashes(cs@.subrange(0, i as int)),
        decreases cs.len() - i,
    {
        assert(cs@.subrange(0, i + 1).drop_last() =~= cs@.subrange(0, i as int));
        if cs[i] == '/' {
            v.push('_');
            v.push('_');
            assert(v@ =~= replace_slashes(cs@.subrange(0, i as int)) + seq!['_', '_']);
        } else {
            v.push(cs[i]);
        }
        i += 1;
    }
    assert(cs@.subrange(0, i as int) =~= model_id@);
    string_of(&v)
}

/// What the single `Range: bytes=0-0` probe yields: the resolved URL, the
/// total size from `Content-Range` (else `Content-Length`, else 0) and whether
/// ranges are supported (a 206 answer).
pub open spec fn probe_response_spec(
    success: bool,
    status_code: u16,
    status: Seq<char>,
    resolved: Seq<char>,
    content_range: Option<Seq<char>>,
    content_length: Option<u64>,
) -> Result<(Seq<char>, u64, bool), Seq<char>> {
    if !success && status_code != 206 {
        Err("Probe failed: HTTP "@ + status)
    } else {
        let from_range = match content_range {
            Some(h) => parse_u64_spec(after_last_slash(h)),
            None => None,
        };
        let total = match from_range {
            Some(v) => v,
            None => match content_length {
                Some(n) => n,
                None => 0,
            },
        };
        Ok((resolved, total, status_code == 206))
    }
}

/// Interprets the answer to the probe request.
pub fn probe_response(
    success: bool,
    status_code: u16,
    status: &str,
    resolved: String,
    content_range: Option<&str>,
    content_length: Option<u64>,
) -> (r: Result<(String, u64, bool), String>)
    ensures
        crate::download::client::probe_result_view(r) == probe_response_spec(
            success,
            status_code,
            status@,
            resolved@,
            crate::download::client::opt_view(content_range),
            content_length,
        ),
{
    if !success && status_code != 206 {
        let mut v: Vec<char> = Vec::new();
        push_str(&mut v, "Probe failed: HTTP ");
        push_str(&mut v, status);
        return Err(string_of(&v));
    }
    let from_range = match content_range {
        Some(h) => {
            let cs = chars_of(h);
            let seg = last_segment(cs.as_slice());
            parse_u64(seg.as_slice())
        },
        None => None,
    };
    let total = match from_range {
        Some(v) => v,
        None => match content_length {
            Some(n) => n,
            None => 0,
        },
    };
    Ok((resolved, total, status_code == 206))
}

/// Counts a failed chunk request; `true` when the retry budget is spent.
pub fn next_attempt(attempt: usize) -> (r: (usize, bool))
    requires
        attempt < MAX_RETRIES,
    ensures
        r.0 == attempt + 1,
        r.1 == (attempt + 1 >= MAX_RETRIES),
{
    let a = attempt + 1;
    (a, a >= MAX_RETRIES)
}

/// Error for a chunk whose status stayed bad through every retry.
pub fn chunk_failed_message(index: u64, status: &str) -> (m: String)
    ensures
        m@ == chunk_prefix(index) + " failed: HTTP "@ + status@,
{
    let mut v: Vec<char> = Vec::new();
    chunk_message_start(&mut v, index);
    push_str(&mut v, " failed: HTTP ");
    push_str(&mut v, status);
    string_of(&v)
}

/// How a download ended, and what is done with the partial file.
pub enum DownloadOutcome {
    /// The transfer failed: the file is removed and the error reported.
    Failed,
    /// Cancelled by the user: the file is removed, nothing is registered.
    Cancelled,
    /// Complete: the model is registered.
    Completed,
}

/// An error outranks a cancellation, which outranks completion.
pub fn download_outcome(failed: bool, cancelled: bool) -> (o: DownloadOutcome)
    ensures
        failed ==> o is Failed,
        !failed && cancelled ==> o is Cancelled,
        !failed && !cancelled ==> o is Completed,
{
    if failed {
        DownloadOutcome::Failed
    } else if cancelled {
        DownloadOutcome::Cancelled
    } else {
        DownloadOutcome::Completed
    }
}

} // verus!
