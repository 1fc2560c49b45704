//! Decisions of the file transfer: how a file is cut into byte ranges, how
//! each range is retried and resumed, and when progress reporting stops.

use vstd::prelude::*;
use vstd::arithmetic::power2::{pow2, lemma2_to64};
use vstd::arithmetic::div_mod::{lemma_fundamental_div_mod, lemma_mod_pos_bound};
use vstd::arithmetic::mul::{
    lemma_mul_inequality, lemma_mul_is_commutative, lemma_mul_is_distributive_add_other_way,
};

use crate::download::client::{host_allowed, is_allowed_host};
use crate::text::{decimal, push_decimal, push_str, string_of};

verus! {

pub const MAX_CONNECT_RETRIES: u32 = 3;

pub const MAX_STREAM_RETRIES: u32 = 3;

// ── Chunk plan ───────────────────────────────────────────────────────────────

/// Bytes per chunk: `ceil(total / chunks)`.
pub open spec fn chunk_size(total: nat, chunks: nat) -> nat {
    ((total + chunks - 1) as nat) / chunks
}

/// Last byte of chunk `i` for chunks of `cs` bytes in a file of `total` bytes.
pub open spec fn chunk_end(total: int, cs: int, i: int) -> int {
    if (i + 1) * cs - 1 < total - 1 { (i + 1) * cs - 1 } else { total - 1 }
}

/// The plan for `total` bytes in at most `chunks` ranges: range `i` covers
/// bytes `i * cs ..= chunk_end(i)`, and ranges are emitted while their start
/// is inside the file.
pub open spec fn is_chunk_plan(r: Seq<(u64, u64)>, total: nat, chunks: nat) -> bool {
    let cs = chunk_size(total, chunks);
    &&& r.len() <= chunks
    &&& forall|i: int| 0 <= i < r.len() ==> (#[trigger] r[i]).0 == i * cs && r[i].1 == chunk_end(total as int, cs as int, i) && i * cs < total
    &&& (r.len() == chunks || r.len() * cs >= total)
}

proof fn lemma_chunk_size_bounds(total: nat, chunks: nat)
    requires
        total > 0,
        chunks > 0,
    ensures
        chunk_size(total, chunks) >= 1,
        chunks * chunk_size(total, chunks) >= total,
        chunks * chunk_size(total, chunks) <= total + chunks - 1,
{
    let x = (total + chunks - 1) as int;
    let cs = x / (chunks as int);
    lemma_fundamental_div_mod(x, chunks as int);
    lemma_mod_pos_bound(x, chunks as int);
    assert(chunks * cs <= x && x < chunks * cs + chunks);
    if cs <= 0 {
        lemma_mul_inequality(cs, 0, chunks as int);
        assert(false);
    }
}

proof fn lemma_mul_mono(a: nat, b: nat, c: nat)
    requires
        a <= b,
    ensures
        a * c <= b * c,
{
    lemma_mul_inequality(a as int, b as int, c as int);
}

/// Cuts `total` bytes into at most `chunks` contiguous inclusive ranges of
/// `ceil(total / chunks)` bytes each.
pub fn plan_chunks(total: u64, chunks: u64) -> (r: Vec<(u64, u64)>)
    requires
        total > 0,
        chunks > 0,
        total + chunks <= u64::MAX,
    ensures
        is_chunk_plan(r@, total as nat, chunks as nat),
{
    let cs = (total + chunks - 1) / chunks;
    proof {
        lemma_chunk_size_bounds(total as nat, chunks as nat);
    }
    assert(cs == chunk_size(total as nat, chunks as nat));
    let mut r: Vec<(u64, u64)> = Vec::new();
    let mut i: u64 = 0;
    while i < chunks
        invariant
            total > 0,
            chunks > 0,
            total + chunks <= u64::MAX,
            cs == chunk_size(total as nat, chunks as nat),
            cs >= 1,
            chunks * cs >= total,
            chunks * cs <= total + chunks - 1,
            i <= chunks,
            r@.len() == i,
            forall|k: int| 0 <= k < r@.len() ==> (#[trigger] r@[k]).0 == k * cs && r@[k].1 == chunk_end(total as int, cs as int, k) && k * cs < total,
        decreases chunks - i,
    {
        proof {
            lemma_mul_mono((i + 1) as nat, chunks as nat, cs as nat);
            lemma_mul_mono(i as nat, (i + 1) as nat, cs as nat);
            assert((i + 1) * cs <= total + chunks - 1);
            lemma_mul_mono(1, (i + 1) as nat, cs as nat);
        }
        let start = i * cs;
        if start >= total {
            assert(r@.len() * cs >= total);
            return r;
        }
        let upper = (i + 1) * cs - 1;
        let end = if upper < total - 1 { upper } else { total - 1 };
        r.push((start, end));
        i += 1;
    }
    r
}

proof fn lemma_plan_entry(r: Seq<(u64, u64)>, total: nat, chunks: nat, i: int)
    requires
        is_chunk_plan(r, total, chunks),
        0 <= i < r.len(),
    ensures
        r[i].0 == i * chunk_size(total, chunks),
        r[i].1 == chunk_end(total as int, chunk_size(total, chunks) as int, i),
        i * chunk_size(total, chunks) < total,
{
    assert(r[i] == r[i]);
}

/// The planned ranges tile the file: the first starts at byte 0, each next one
/// starts right after the previous one ends, none is empty, and the last one
/// ends at the last byte.
pub proof fn law_plan_covers_file(r: Seq<(u64, u64)>, total: nat, chunks: nat)
    requires
        total > 0,
        chunks > 0,
        is_chunk_plan(r, total, chunks),
    ensures
        r.len() > 0,
        r[0].0 == 0,
        r[r.len() - 1].1 == total - 1,
        forall|i: int| 0 <= i < r.len() ==> #[trigger] r[i].0 <= r[i].1,
        forall|i: int| 0 <= i < r.len() - 1 ==> #[trigger] r[i + 1].0 == r[i].1 + 1,
{
    let cs = chunk_size(total, chunks) as int;
    lemma_chunk_size_bounds(total, chunks);
    if r.len() == 0 {
        assert(r.len() * cs == 0);
        assert(false);
    }
    let n = r.len() as int;
    assert(r[0].0 == 0 * cs);
    // The last range reaches the end of the file: either `n * cs` covers it,
    // or all `chunks` ranges were emitted and `chunks * cs` covers it.
    assert(n * cs >= total) by {
        if n == chunks {
            lemma_mul_is_commutative(chunks as int, cs);
        }
    }
    assert(r[n - 1].1 == chunk_end(total as int, cs, n - 1));
    assert forall|i: int| 0 <= i < r.len() implies #[trigger] r[i].0 <= r[i].1 by {
        assert(r[i].0 == i * cs && i * cs < total);
        assert(r[i].1 == chunk_end(total as int, cs, i));
        lemma_mul_is_distributive_add_other_way(cs, i, 1);
    }
    assert forall|i: int| 0 <= i < r.len() - 1 implies #[trigger] r[i + 1].0 == r[i].1 + 1 by {
        let j = i + 1;
        lemma_plan_entry(r, total, chunks, j);
        lemma_plan_entry(r, total, chunks, i);
    }
}

// ── Per-chunk retry state machine ────────────────────────────────────────────

/// Milliseconds to wait before attempt number `attempts + 1`: none before the
/// first, then 250 ms doubled per failure, capped at 4 s.
pub open spec fn backoff_ms(attempts: u32) -> Option<u64> {
    if attempts == 0 {
        None
    } else {
        Some((250 * pow2(if attempts < 4 { attempts as nat } else { 4 })) as u64)
    }
}

/// The retry state of one chunk: where the next request resumes, where the
/// chunk ends, and how many attempts have failed.
pub struct ChunkTransfer {
    pub index: u64,
    pub current_start: u64,
    pub end: u64,
    pub attempts: u32,
}

/// What the connect phase of an attempt produced.
pub enum ConnectOutcome {
    /// A response arrived: its status code, the status text, and the host of
    /// the final URL.
    Response { code: u16, status: String, host: Option<String> },
    /// The request could not be sent or connected.
    Error,
}

pub enum ConnectAction {
    /// Stream the body into the file from `current_start`.
    Stream,
    /// Try again after `retry_delay_ms`.
    Retry,
    /// Give up on the whole download with this message.
    Fail(String),
}

pub enum FinishAction {
    Done,
    Retry,
    Fail(String),
}

pub open spec fn chunk_prefix(index: u64) -> Seq<char> {
    "Chunk "@ + decimal(index as nat)
}

/// A 2xx status.
pub open spec fn is_success_code(code: u16) -> bool {
    200 <= code <= 299
}

/// A status by which the server asks to come back later (429 Too Many
/// Requests, 503 Service Unavailable): the chunk is tried again like after a
/// connect error.
pub open spec fn is_throttled(code: u16) -> bool {
    code == 429 || code == 503
}

pub open spec fn connect_decision(c: ChunkTransfer, outcome: ConnectOutcome) -> (u32, Option<Option<Seq<char>>>) {
    match outcome {
        ConnectOutcome::Response { code, status, host } => {
            if is_success_code(code) {
                if host is Some && !host_allowed(host->0@) {
                    (c.attempts, Some(Some(chunk_prefix(c.index) + " redirected to unexpected host: "@ + host->0@)))
                } else {
                    (c.attempts, Some(None))
                }
            } else if is_throttled(code) {
                let a = (c.attempts + 1) as u32;
                if a >= MAX_CONNECT_RETRIES {
                    (a, Some(Some(chunk_prefix(c.index) + " got unexpected status "@ + status@)))
                } else {
                    (a, None)
                }
            } else {
                (c.attempts, Some(Some(chunk_prefix(c.index) + " got unexpected status "@ + status@)))
            }
        },
        ConnectOutcome::Error => {
            let a = (c.attempts + 1) as u32;
            if a >= MAX_CONNECT_RETRIES {
                (a, Some(Some(chunk_prefix(c.index) + " failed to connect after "@ + decimal(a as nat) + " attempts"@)))
            } else {
                (a, None)
            }
        },
    }
}

/// `(attempts, None)` for a retry, `(attempts, Some(None))` to stream,
/// `(attempts, Some(Some(msg)))` to fail.
pub open spec fn connect_action_view(a: ConnectAction) -> Option<Option<Seq<char>>> {
    match a {
        ConnectAction::Stream => Some(None),
        ConnectAction::Retry => None,
        ConnectAction::Fail(m) => Some(Some(m@)),
    }
}

pub open spec fn finish_decision(c: ChunkTransfer, stream_error: bool) -> (u32, Option<Option<Seq<char>>>) {
    if stream_error {
        let a = (c.attempts + 1) as u32;
        if a >= MAX_CONNECT_RETRIES + MAX_STREAM_RETRIES {
            (a, Some(Some(chunk_prefix(c.index) + " stream failed after "@ + decimal(a as nat) + " retries (byte "@
                + decimal(c.current_start as nat) + ")"@)))
        } else {
            (a, None)
        }
    } else {
        (c.attempts, Some(None))
    }
}

pub open spec fn finish_action_view(a: FinishAction) -> Option<Option<Seq<char>>> {
    match a {
        FinishAction::Done => Some(None),
        FinishAction::Retry => None,
        FinishAction::Fail(m) => Some(Some(m@)),
    }
}

pub open spec fn range_header_spec(start: u64, end: u64) -> Seq<char> {
    "bytes="@ + decimal(start as nat) + "-"@ + decimal(end as nat)
}

/// `bytes=<start>-<end>`, the value of a `Range` request header.
pub fn byte_range_header(start: u64, end: u64) -> (h: String)
    ensures
        h@ == range_header_spec(start, end),
{
    let mut v: Vec<char> = Vec::new();
    push_str(&mut v, "bytes=");
    push_decimal(&mut v, start);
    push_str(&mut v, "-");
    push_decimal(&mut v, end);
    assert(v@ =~= range_header_spec(start, end));
    string_of(&v)
}

pub fn chunk_message_start(v: &mut Vec<char>, index: u64)
    ensures
        final(v)@ == old(v)@ + chunk_prefix(index),
{
    push_str(v, "Chunk ");
    push_decimal(v, index);
    assert(final(v)@ =~= old(v)@ + chunk_prefix(index));
}

impl ChunkTransfer {
    /// A chunk covering `start..=end` with no failed attempt yet.
    pub fn new(index: u64, start: u64, end: u64) -> (c: Self)
        ensures
            c == (ChunkTransfer { index, current_start: start, end, attempts: 0 }),
    {
        ChunkTransfer { index, current_start: start, end, attempts: 0 }
    }

    /// Still allowed to attempt: fewer failures than both retry budgets.
    pub open spec fn live(&self) -> bool {
        self.attempts < MAX_CONNECT_RETRIES + MAX_STREAM_RETRIES
    }

    /// Delay before the next attempt.
    pub fn retry_delay_ms(&self) -> (d: Option<u64>)
        ensures
            d == backoff_ms(self.attempts),
    {
        proof {
            lemma2_to64();
        }
        if self.attempts == 0 {
            None
        } else if self.attempts == 1 {
            Some(500)
        } else if self.attempts == 2 {
            Some(1000)
        } else if self.attempts == 3 {
            Some(2000)
        } else {
            Some(4000)
        }
    }

    /// `Range` header of the next attempt: it resumes after the bytes already
    /// written.
    pub fn range_header(&self) -> (h: String)
        ensures
            h@ == range_header_spec(self.current_start, self.end),
    {
        byte_range_header(self.current_start, self.end)
    }

    /// Decides what follows the connect phase: a 2xx answer from an allowed
    /// host is streamed, a connect error or a throttling answer (429, 503) is
    /// retried from `current_start` while the connect budget lasts, and any
    /// other answer ends the download.
    pub fn on_connect(&mut self, outcome: &ConnectOutcome) -> (a: ConnectAction)
        requires
            old(self).live(),
        ensures
            (final(self).attempts, connect_action_view(a)) == connect_decision(*old(self), *outcome),
            final(self).index == old(self).index,
            final(self).current_start == old(self).current_start,
            final(self).end == old(self).end,
            a is Retry ==> final(self).live() && final(self).attempts == old(self).attempts + 1,
    {
        match outcome {
            ConnectOutcome::Response { code, status, host } => {
                if 200 <= *code && *code <= 299 {
                    if let Some(h) = host {
                        if !is_allowed_host(h.as_str()) {
                            let mut v: Vec<char> = Vec::new();
                            chunk_message_start(&mut v, self.index);
                            push_str(&mut v, " redirected to unexpected host: ");
                            push_str(&mut v, h.as_str());
                            assert(v@ =~= chunk_prefix(self.index) + " redirected to unexpected host: "@ + h@);
                            return ConnectAction::Fail(string_of(&v));
                        }
                    }
                    return ConnectAction::Stream;
                }
                if *code == 429 || *code == 503 {
                    self.attempts = self.attempts + 1;
                    if self.attempts < MAX_CONNECT_RETRIES {
                        return ConnectAction::Retry;
                    }
                }
                let mut v: Vec<char> = Vec::new();
                chunk_message_start(&mut v, self.index);
                push_str(&mut v, " got unexpected status ");
                push_str(&mut v, status.as_str());
                assert(v@ =~= chunk_prefix(self.index) + " got unexpected status "@ + status@);
                ConnectAction::Fail(string_of(&v))
            },
            ConnectOutcome::Error => {
                self.attempts = self.attempts + 1;
                if self.attempts >= MAX_CONNECT_RETRIES {
                    let mut v: Vec<char> = Vec::new();
                    chunk_message_start(&mut v, self.index);
                    push_str(&mut v, " failed to connect after ");
                    push_decimal(&mut v, self.attempts as u64);
                    push_str(&mut v, " attempts");
                    assert(v@ =~= chunk_prefix(self.index) + " failed to connect after "@ + decimal(self.attempts as nat) + " attempts"@);
                    ConnectAction::Fail(string_of(&v))
                } else {
                    ConnectAction::Retry
                }
            },
        }
    }

    /// `len` more bytes were handed to the writer.
    pub fn on_data(&mut self, len: u64)
        requires
            old(self).current_start + len <= u64::MAX,
        ensures
            *final(self) == (ChunkTransfer { current_start: (old(self).current_start + len) as u64, ..*old(self) }),
    {
        self.current_start = self.current_start + len;
    }

    /// Decides what follows the end of a body stream: a clean end finishes
    /// the chunk, a broken or stalled stream is retried from `current_start`
    /// until the combined budget of failures is spent.
    pub fn on_stream_end(&mut self, stream_error: bool) -> (a: FinishAction)
        requires
            old(self).live(),
        ensures
            (final(self).attempts, finish_action_view(a)) == finish_decision(*old(self), stream_error),
            final(self).index == old(self).index,
            final(self).current_start == old(self).current_start,
            final(self).end == old(self).end,
            a is Retry ==> final(self).live() && final(self).attempts == old(self).attempts + 1,
    {
        if !stream_error {
            return FinishAction::Done;
        }
        self.attempts = self.attempts + 1;
        if self.attempts >= MAX_CONNECT_RETRIES + MAX_STREAM_RETRIES {
            let mut v: Vec<char> = Vec::new();
            chunk_message_start(&mut v, self.index);
            push_str(&mut v, " stream failed after ");
            push_decimal(&mut v, self.attempts as u64);
            push_str(&mut v, " retries (byte ");
            push_decimal(&mut v, self.current_start);
            push_str(&mut v, ")");
            assert(v@ =~= chunk_prefix(self.index) + " stream failed after "@ + decimal(self.attempts as nat) + " retries (byte "@
                + decimal(self.current_start as nat) + ")"@);
            FinishAction::Fail(string_of(&v))
        } else {
            FinishAction::Retry
        }
    }

    /// Message when the disk writer of this chunk went away.
    pub fn writer_died_message(&self) -> (m: String)
        ensures
            m@ == chunk_prefix(self.index) + " writer died unexpectedly"@,
    {
        let mut v: Vec<char> = Vec::new();
        chunk_message_start(&mut v, self.index);
        push_str(&mut v, " writer died unexpectedly");
        string_of(&v)
    }
}

/// Every retry consumes one unit of a budget of six failures, so a chunk is
/// attempted at most six times before the download gives up.
pub proof fn law_retries_bounded(c: ChunkTransfer, outcome: ConnectOutcome, stream_error: bool)
    requires
        c.live(),
    ensures
        connect_decision(c, outcome).1 is None ==> connect_decision(c, outcome).0 == c.attempts + 1
            && connect_decision(c, outcome).0 < MAX_CONNECT_RETRIES,
        finish_decision(c, stream_error).1 is None ==> finish_decision(c, stream_error).0 == c.attempts + 1
            && finish_decision(c, stream_error).0 < MAX_CONNECT_RETRIES + MAX_STREAM_RETRIES,
{
}

/// A throttling answer (429 or 503) to a chunk request costs one connect
/// attempt and, while the connect budget lasts, leads to a retry of the same
/// range rather than a failure.
pub proof fn law_throttling_retried(c: ChunkTransfer, code: u16, status: String, host: Option<String>)
    requires
        is_throttled(code),
        c.attempts + 1 < MAX_CONNECT_RETRIES,
    ensures
        connect_decision(c, ConnectOutcome::Response { code, status, host }) == (
            (c.attempts + 1) as u32,
            None::<Option<Seq<char>>>,
        ),
{
}

// ── Progress ─────────────────────────────────────────────────────────────────

/// Progress reporting stops once a known total has been reached.
pub fn progress_finished(total: u64, so_far: u64) -> (b: bool)
    ensures
        b == (total > 0 && so_far >= total),
{
    total > 0 && so_far >= total
}

/// Error when a whole-file stream stops delivering data.
pub const STALLED_MESSAGE: &'static str = "Download stalled: no data received for 30 seconds";

/// Error when the disk writer of a whole-file stream went away.
pub const STREAM_WRITER_DIED_MESSAGE: &'static str = "Stream writer died unexpectedly";

pub open spec fn download_failed_message(status: Seq<char>) -> Seq<char> {
    "Download failed: HTTP "@ + status
}

/// Error for a non-2xx answer to a whole-file `GET`.
pub fn download_failed(status: &str) -> (m: String)
    ensures
        m@ == download_failed_message(status@),
{
    let mut v: Vec<char> = Vec::new();
    push_str(&mut v, "Download failed: HTTP ");
    push_str(&mut v, status);
    string_of(&v)
}

} // verus!
