//! HTTP-level download decisions: which hosts may serve files, how a size
//! probe is interpreted, how many parallel chunks to use, and the
//! `Authorization` header built from a HuggingFace token.

use vstd::prelude::*;
use vstd::utf8::encode_utf8;
use vstd::arithmetic::div_mod::{
    lemma_div_is_ordered, lemma_div_multiples_vanish, lemma_fundamental_div_mod, lemma_mod_pos_bound,
};
use vstd::arithmetic::mul::{
    lemma_mul_inequality, lemma_mul_is_commutative, lemma_mul_is_distributive_add_other_way,
    lemma_mul_strict_inequality_converse,
};

use crate::text::{
    chars_eq, chars_of, contains, contains_seq, decimal, ends_with, ends_with_seq, push_decimal,
    push_str, string_of,
};

verus! {

pub const ALLOWED_HOST: &'static str = "hf.co";

const ALLOWED_HOST_SUFFIX: &'static str = ".hf.co";

/// Ceiling for parallel TCP connections to the CDN.
pub const MAX_PARALLEL_CHUNKS: u64 = 16;

/// 256 MiB per chunk: long-lived, high-throughput connections.
pub const TARGET_CHUNK_SIZE: u64 = 256 * 1024 * 1024;

/// Hard cap on a claimed file size (100 GiB).
pub const MAX_FILE_BYTES: u64 = 100 * 1024 * 1024 * 1024;

pub open spec fn allowed_host() -> Seq<char> {
    seq!['h', 'f', '.', 'c', 'o']
}

pub open spec fn allowed_host_suffix() -> Seq<char> {
    seq!['.', 'h', 'f', '.', 'c', 'o']
}

/// A host is allowed when it is exactly `hf.co` or a genuine subdomain of it.
pub open spec fn host_allowed(host: Seq<char>) -> bool {
    host == allowed_host() || ends_with_seq(host, allowed_host_suffix())
}

/// Returns true if `host` is exactly the allowed host or a subdomain of it.
///
/// A plain suffix test on `hf.co` would accept `evilhf.co`; the suffix must
/// start with a dot.
pub fn is_allowed_host(host: &str) -> (r: bool)
    ensures
        r == host_allowed(host@),
{
    proof {
        reveal_strlit("hf.co");
        reveal_strlit(".hf.co");
    }
    let h = chars_of(host);
    let exact = chars_of(ALLOWED_HOST);
    let suffix = chars_of(ALLOWED_HOST_SUFFIX);
    assert(exact@ =~= allowed_host());
    assert(suffix@ =~= allowed_host_suffix());
    chars_eq(h.as_slice(), exact.as_slice()) || ends_with(h.as_slice(), suffix.as_slice())
}

/// `ceil(a / b)` for positive `b`.
pub open spec fn ceil_div(a: nat, b: nat) -> nat {
    if a % b == 0 { a / b } else { a / b + 1 }
}

/// Chunk count for a file of `total` bytes: one chunk per 256 MiB, at least
/// one and at most `MAX_PARALLEL_CHUNKS`.
pub open spec fn chunk_count(total: nat) -> nat {
    if total == 0 {
        1
    } else {
        let c = ceil_div(total, TARGET_CHUNK_SIZE as nat);
        if c < 1 { 1 } else if c > MAX_PARALLEL_CHUNKS { MAX_PARALLEL_CHUNKS as nat } else { c }
    }
}

/// Scales the parallel chunk count to the target chunk size.
pub fn choose_chunks(total: u64) -> (c: u64)
    ensures
        c == chunk_count(total as nat),
        1 <= c <= MAX_PARALLEL_CHUNKS,
{
    if total == 0 {
        return 1;
    }
    let whole = total / TARGET_CHUNK_SIZE;
    if whole >= MAX_PARALLEL_CHUNKS {
        return MAX_PARALLEL_CHUNKS;
    }
    let chunks = if total % TARGET_CHUNK_SIZE == 0 { whole } else { whole + 1 };
    if chunks < 1 {
        1
    } else if chunks > MAX_PARALLEL_CHUNKS {
        MAX_PARALLEL_CHUNKS
    } else {
        chunks
    }
}

/// Up to the ceiling (16 chunks of 256 MiB, 4 GiB), chunks of
/// `ceil(total / chunks)` bytes stay within 256 MiB; beyond it the count is
/// saturated at the ceiling.
pub proof fn law_chunks_within_target(total: nat)
    ensures
        0 < total <= MAX_PARALLEL_CHUNKS * TARGET_CHUNK_SIZE ==> ((total + chunk_count(total) - 1) as nat) / chunk_count(total)
            <= TARGET_CHUNK_SIZE,
        total > MAX_PARALLEL_CHUNKS * TARGET_CHUNK_SIZE ==> chunk_count(total) == MAX_PARALLEL_CHUNKS,
{
    let t = TARGET_CHUNK_SIZE as int;
    let q = (total as int) / t;
    let r = (total as int) % t;
    lemma_fundamental_div_mod(total as int, t);
    lemma_mod_pos_bound(total as int, t);
    lemma_mul_is_commutative(t, q);
    let c = ceil_div(total, t as nat) as int;
    assert(c == if r == 0 { q } else { q + 1 });
    // `c` chunks of `t` bytes cover the file.
    assert(c * t >= total) by {
        lemma_mul_is_distributive_add_other_way(t, q, 1);
    }
    if 0 < total <= MAX_PARALLEL_CHUNKS * TARGET_CHUNK_SIZE {
        assert(q <= MAX_PARALLEL_CHUNKS) by {
            lemma_div_is_ordered(total as int, t * 16, t);
            lemma_div_multiples_vanish(16, t);
        }
        assert(1 <= c <= MAX_PARALLEL_CHUNKS) by {
            if q == 0 {
                assert(t * 0 == 0);
            }
            if q == MAX_PARALLEL_CHUNKS {
                assert(r == 0);
            }
        }
        assert(chunk_count(total) == c);
        // With `x = total + c - 1`: `(x / c) * c <= x < (t + 1) * c`.
        let x = total + c - 1;
        lemma_fundamental_div_mod(x, c);
        lemma_mod_pos_bound(x, c);
        lemma_mul_is_commutative(c, x / c);
        lemma_mul_is_distributive_add_other_way(c, t, 1);
        lemma_mul_is_commutative(c, t);
        lemma_mul_strict_inequality_converse(x / c, t + 1, c);
    }
    if total > MAX_PARALLEL_CHUNKS * TARGET_CHUNK_SIZE {
        if q < MAX_PARALLEL_CHUNKS {
            lemma_mul_inequality(q, 15, t);
            lemma_mul_is_commutative(15, t);
        }
        assert(c > MAX_PARALLEL_CHUNKS);
    }
}

// ── Content-Range parsing ────────────────────────────────────────────────────

/// The text after the last `'/'` (all of `s` when it has none).
pub open spec fn after_last_slash(s: Seq<char>) -> Seq<char>
    decreases s.len(),
{
    if s.len() == 0 {
        s
    } else if s.last() == '/' {
        Seq::empty()
    } else {
        after_last_slash(s.drop_last()).push(s.last())
    }
}

pub open spec fn is_digit(c: char) -> bool {
    '0' <= c && c <= '9'
}

pub open spec fn digit_value(c: char) -> nat {
    (c as u32 - '0' as u32) as nat
}

/// Value of a run of decimal digits.
pub open spec fn digits_value(d: Seq<char>) -> nat
    decreases d.len(),
{
    if d.len() == 0 {
        0
    } else {
        digits_value(d.drop_last()) * 10 + digit_value(d.last())
    }
}

/// `s` without one leading `'+'`.
pub open spec fn unsigned_digits(s: Seq<char>) -> Seq<char> {
    if s.len() > 0 && s[0] == '+' { s.drop_first() } else { s }
}

pub open spec fn all_digits(d: Seq<char>) -> bool {
    forall|i: int| 0 <= i < d.len() ==> is_digit(#[trigger] d[i])
}

/// What `u64::from_str` accepts: an optional `'+'`, then at least one digit,
/// and a value that fits in 64 bits.
pub open spec fn parse_u64_spec(s: Seq<char>) -> Option<u64> {
    let d = unsigned_digits(s);
    if d.len() == 0 || !all_digits(d) {
        None
    } else if digits_value(d) > u64::MAX {
        None
    } else {
        Some(digits_value(d) as u64)
    }
}

proof fn lemma_digits_value_prefix(d: Seq<char>, i: int)
    requires
        0 <= i < d.len(),
    ensures
        digits_value(d.subrange(0, i + 1)) == digits_value(d.subrange(0, i)) * 10 + digit_value(d[i]),
{
    assert(d.subrange(0, i + 1).drop_last() =~= d.subrange(0, i));
}

proof fn lemma_digits_value_monotone(d: Seq<char>, i: int)
    requires
        0 <= i <= d.len(),
        forall|k: int| 0 <= k < d.len() ==> is_digit(#[trigger] d[k]),
    ensures
        digits_value(d.subrange(0, i)) <= digits_value(d),
    decreases d.len() - i,
{
    if i < d.len() {
        lemma_digits_value_prefix(d, i);
        lemma_digits_value_monotone(d, i + 1);
    } else {
        assert(d.subrange(0, i) =~= d);
    }
}

/// Parses a decimal `u64` as `str::parse::<u64>` does.
pub fn parse_u64(s: &[char]) -> (r: Option<u64>)
    ensures
        r == parse_u64_spec(s@),
{
    let start: usize = if s.len() > 0 && s[0] == '+' { 1 } else { 0 };
    let ghost d = unsigned_digits(s@);
    assert(d =~= s@.subrange(start as int, s.len() as int));
    if start >= s.len() {
        return None;
    }
    let mut value: u64 = 0;
    let mut i: usize = start;
    while i < s.len()
        invariant
            start <= i <= s.len(),
            start < s.len(),
            d == s@.subrange(start as int, s.len() as int),
            d == unsigned_digits(s@),
            forall|k: int| 0 <= k < i - start ==> is_digit(#[trigger] d[k]),
            value == digits_value(d.subrange(0, i - start)),
        decreases s.len() - i,
    {
        let c = s[i];
        assert(d[i - start] == c);
        if !('0' <= c && c <= '9') {
            assert(!is_digit(d[i - start]));
            assert(!all_digits(d));
            return None;
        }
        let dv = (c as u32 - '0' as u32) as u64;
        proof {
            lemma_digits_value_prefix(d, i - start);
        }
        if value > (u64::MAX - dv) / 10 {
            proof {
                assert(value * 10 + dv > u64::MAX) by (nonlinear_arith)
                    requires
                        value > (u64::MAX - dv) / 10,
                        dv <= 9,
                ;
                // Either a later character is not a digit, or the whole run is
                // at least this prefix, which is already beyond 64 bits.
                if all_digits(d) {
                    lemma_digits_value_monotone(d, i - start + 1);
                }
            }
            return None;
        }
        assert(value * 10 + dv <= u64::MAX) by (nonlinear_arith)
            requires
                value <= (u64::MAX - dv) / 10,
                dv <= 9,
        ;
        value = value * 10 + dv;
        i += 1;
    }
    assert(d.subrange(0, i - start) =~= d);
    Some(value)
}

/// Total size from a `Content-Range: bytes 0-0/<total>` header: the text after
/// the last `/`, parsed as `u64`, or 0 when that fails.
pub open spec fn content_range_total(header: Option<Seq<char>>) -> nat {
    match header {
        Some(h) => match parse_u64_spec(after_last_slash(h)) {
            Some(v) => v as nat,
            None => 0,
        },
        None => 0,
    }
}

/// The characters after the last `'/'` of `s`.
pub fn last_segment(s: &[char]) -> (r: Vec<char>)
    ensures
        r@ == after_last_slash(s@),
{
    let mut j: usize = s.len();
    assert(s@.subrange(0, s.len() as int) =~= s@);
    assert(s@.subrange(s.len() as int, s.len() as int) =~= Seq::<char>::empty());
    while j > 0 && s[j - 1] != '/'
        invariant
            j <= s.len(),
            after_last_slash(s@) == after_last_slash(s@.subrange(0, j as int)) + s@.subrange(j as int, s.len() as int),
        decreases j,
    {
        proof {
            let p = s@.subrange(0, j as int);
            assert(p.drop_last() =~= s@.subrange(0, j - 1));
            assert(after_last_slash(p) == after_last_slash(p.drop_last()).push(p.last()));
            assert(s@.subrange(j - 1, s.len() as int) =~= seq![p.last()] + s@.subrange(j as int, s.len() as int));
            assert(after_last_slash(p.drop_last()).push(p.last()) + s@.subrange(j as int, s.len() as int)
                =~= after_last_slash(p.drop_last()) + s@.subrange(j - 1, s.len() as int));
        }
        j -= 1;
    }
    proof {
        let p = s@.subrange(0, j as int);
        if j == 0 {
            assert(p =~= Seq::<char>::empty());
        }
        assert(after_last_slash(p) =~= Seq::<char>::empty());
        assert(after_last_slash(s@) =~= s@.subrange(j as int, s.len() as int));
    }
    crate::text::slice_chars(s, j, s.len())
}

/// Reads the total size out of a `Content-Range` header value.
pub fn parse_content_range_total(header: Option<&str>) -> (r: u64)
    ensures
        r == content_range_total(match header { Some(h) => Some(h@), None => None }),
{
    match header {
        Some(h) => {
            let cs = chars_of(h);
            let seg = last_segment(cs.as_slice());
            match parse_u64(seg.as_slice()) {
                Some(v) => v,
                None => 0,
            }
        },
        None => 0,
    }
}

// ── Probe decisions ──────────────────────────────────────────────────────────

pub open spec fn bytes_token() -> Seq<char> {
    seq!['b', 'y', 't', 'e', 's']
}

pub open spec fn probe_failed_message(status: Seq<char>) -> Seq<char> {
    "Probe failed: HTTP "@ + status
}

pub open spec fn unexpected_host_message(host: Seq<char>) -> Seq<char> {
    "Redirected to unexpected host: "@ + host
}

pub open spec fn too_large_message(total: nat) -> Seq<char> {
    "File too large: "@ + decimal(total) + " bytes exceeds "@ + decimal(MAX_FILE_BYTES as nat)
        + "-byte limit"@
}

/// What the answer to the `HEAD` request decides.
pub enum HeadOutcome {
    /// The probe is over: resolved URL, total size, range support; or an error.
    Finished(Result<(String, u64, bool), String>),
    /// No usable size yet: issue `GET` with `Range: bytes=0-0` against `resolved`.
    RangeProbe { resolved: String },
}

/// The decision `probe` takes after its `HEAD` request.
///
/// `success` is whether the status is 2xx, `status` its display text,
/// `resolved` the final URL after redirects and `host` its host, if any.
pub open spec fn head_decision(
    success: bool,
    status: Seq<char>,
    resolved: Seq<char>,
    host: Option<Seq<char>>,
    accept_ranges: Option<Seq<char>>,
    content_length: Option<u64>,
) -> (bool, Option<Result<(Seq<char>, u64, bool), Seq<char>>>) {
    let accepts = match accept_ranges {
        Some(a) => contains_seq(a, bytes_token()),
        None => false,
    };
    if !success {
        (false, Some(Err(probe_failed_message(status))))
    } else if host is Some && !host_allowed(host->0) {
        (false, Some(Err(unexpected_host_message(host->0))))
    } else if content_length is Some && content_length->0 > 0 {
        if content_length->0 > MAX_FILE_BYTES {
            (false, Some(Err(too_large_message(content_length->0 as nat))))
        } else {
            (false, Some(Ok((resolved, content_length->0, accepts))))
        }
    } else {
        (true, None)
    }
}

pub open spec fn head_outcome_view(o: HeadOutcome) -> (bool, Option<Result<(Seq<char>, u64, bool), Seq<char>>>) {
    match o {
        HeadOutcome::Finished(Ok((r, t, a))) => (false, Some(Ok((r@, t, a)))),
        HeadOutcome::Finished(Err(e)) => (false, Some(Err(e@))),
        HeadOutcome::RangeProbe { .. } => (true, None),
    }
}

pub open spec fn opt_view(o: Option<&str>) -> Option<Seq<char>> {
    match o {
        Some(s) => Some(s@),
        None => None,
    }
}

fn too_large(total: u64) -> (e: String)
    ensures
        e@ == too_large_message(total as nat),
{
    let mut v: Vec<char> = Vec::new();
    push_str(&mut v, "File too large: ");
    push_decimal(&mut v, total);
    push_str(&mut v, " bytes exceeds ");
    push_decimal(&mut v, MAX_FILE_BYTES);
    push_str(&mut v, "-byte limit");
    string_of(&v)
}

fn prefixed(prefix: &str, rest: &str) -> (s: String)
    ensures
        s@ == prefix@ + rest@,
{
    let mut v: Vec<char> = Vec::new();
    push_str(&mut v, prefix);
    push_str(&mut v, rest);
    string_of(&v)
}

/// Interprets the `HEAD` response of a probe.
pub fn probe_after_head(
    success: bool,
    status: &str,
    resolved: String,
    host: Option<&str>,
    accept_ranges: Option<&str>,
    content_length: Option<u64>,
) -> (o: HeadOutcome)
    ensures
        head_outcome_view(o) == head_decision(
            success,
            status@,
            resolved@,
            opt_view(host),
            opt_view(accept_ranges),
            content_length,
        ),
        o matches HeadOutcome::RangeProbe { resolved: r } ==> r@ == resolved@,
{
    if !success {
        return HeadOutcome::Finished(Err(prefixed("Probe failed: HTTP ", status)));
    }
    if let Some(h) = host {
        if !is_allowed_host(h) {
            return HeadOutcome::Finished(Err(prefixed("Redirected to unexpected host: ", h)));
        }
    }
    let accepts = match accept_ranges {
        Some(a) => {
            let cs = chars_of(a);
            let token = chars_of("bytes");
            proof {
                reveal_strlit("bytes");
            }
            assert(token@ =~= bytes_token());
            contains(cs.as_slice(), token.as_slice())
        },
        None => false,
    };
    match content_length {
        Some(total) if total > 0 => {
            if total > MAX_FILE_BYTES {
                HeadOutcome::Finished(Err(too_large(total)))
            } else {
                HeadOutcome::Finished(Ok((resolved, total, accepts)))
            }
        },
        _ => HeadOutcome::RangeProbe { resolved },
    }
}

/// The decision `probe` takes after its fallback `Range: bytes=0-0` request.
pub open spec fn range_decision(resolved: Seq<char>, status_code: u16, content_range: Option<Seq<char>>) -> Result<(Seq<char>, u64, bool), Seq<char>> {
    if status_code != 206 {
        Ok((resolved, 0, false))
    } else if content_range_total(content_range) > MAX_FILE_BYTES {
        Err(too_large_message(content_range_total(content_range)))
    } else {
        Ok((resolved, content_range_total(content_range) as u64, true))
    }
}

pub open spec fn probe_result_view(r: Result<(String, u64, bool), String>) -> Result<(Seq<char>, u64, bool), Seq<char>> {
    match r {
        Ok((s, t, a)) => Ok((s@, t, a)),
        Err(e) => Err(e@),
    }
}

/// Interprets the answer to the fallback range request. Without a 206 the
/// server does not support ranges and the size stays unknown (0); a 206 is
/// proof of range support whatever `HEAD` said.
pub fn probe_after_range(resolved: String, status_code: u16, content_range: Option<&str>) -> (r: Result<(String, u64, bool), String>)
    ensures
        probe_result_view(r) == range_decision(resolved@, status_code, opt_view(content_range)),
{
    if status_code != 206 {
        return Ok((resolved, 0, false));
    }
    let total = parse_content_range_total(content_range);
    if total > MAX_FILE_BYTES {
        return Err(too_large(total));
    }
    Ok((resolved, total, true))
}

/// The `HEAD` answer alone finishes the probe exactly when it is a 2xx from
/// an allowed host with a positive length within the limit. It then reports
/// the resolved URL and that length, and claims range support exactly when an
/// `Accept-Ranges` header is present and contains `bytes`; without the header
/// there is no range support.
pub proof fn law_head_reports_ranges(
    success: bool,
    status: Seq<char>,
    resolved: Seq<char>,
    host: Option<Seq<char>>,
    accept_ranges: Option<Seq<char>>,
    content_length: Option<u64>,
)
    ensures
        (head_decision(success, status, resolved, host, accept_ranges, content_length).1 matches Some(Ok(_)))
            <==> (success && (host is None || host_allowed(host->0)) && content_length is Some && 0 < content_length->0
            <= MAX_FILE_BYTES),
        head_decision(success, status, resolved, host, accept_ranges, content_length).1 matches Some(Ok((r, n, a)))
            ==> r == resolved && content_length == Some(n) && (a <==> (accept_ranges is Some && exists|i: int|
            0 <= i <= accept_ranges->0.len() - 5 && #[trigger] accept_ranges->0.subrange(i, i + 5) == seq![
                'b',
                'y',
                't',
                'e',
                's',
            ])),
        accept_ranges is None ==> !(head_decision(success, status, resolved, host, accept_ranges, content_length).1 matches Some(
            Ok((_, _, true)),
        )),
{
    assert(bytes_token().len() == 5);
    assert(bytes_token() =~= seq!['b', 'y', 't', 'e', 's']);
}

/// A probe never reports a size above the limit, and a 206 answer always
/// reports range support.
pub proof fn law_probe_size_capped(
    success: bool,
    status: Seq<char>,
    resolved: Seq<char>,
    host: Option<Seq<char>>,
    accept_ranges: Option<Seq<char>>,
    content_length: Option<u64>,
    status_code: u16,
    content_range: Option<Seq<char>>,
)
    ensures
        head_decision(success, status, resolved, host, accept_ranges, content_length).1 matches Some(Ok((_, t, _)))
            ==> t <= MAX_FILE_BYTES,
        head_decision(success, status, resolved, host, accept_ranges, content_length).1 matches Some(Ok(_))
            ==> success && (host is None || host_allowed(host->0)),
        range_decision(resolved, status_code, content_range) matches Ok((_, t, _)) ==> t <= MAX_FILE_BYTES,
        status_code == 206 ==> (range_decision(resolved, status_code, content_range) matches Ok((_, _, a)) ==> a),
{
}

// ── Authorization header ─────────────────────────────────────────────────────

#[verifier::external_type_specification]
#[verifier::external_body]
pub struct ExHeaderValue(reqwest::header::HeaderValue);

#[verifier::external_type_specification]
#[verifier::external_body]
pub struct ExInvalidHeaderValue(reqwest::header::InvalidHeaderValue);

/// A byte http accepts in a header value: `\t`, or 32..=255 except 127.
pub open spec fn header_byte_ok(b: u8) -> bool {
    (b >= 32 && b != 127) || b == 9
}

pub open spec fn header_bytes_ok(bytes: Seq<u8>) -> bool {
    forall|i: int| 0 <= i < bytes.len() ==> header_byte_ok(#[trigger] bytes[i])
}

/// Calls `HeaderValue::from_str` (crate http, re-exported by reqwest).
/// Its source checks every byte of the UTF-8 text and fails exactly when one
/// of them is not a header byte; the contract claims no more than that.
#[verifier::external_body]
fn parse_header_value(s: &str) -> (r: Result<reqwest::header::HeaderValue, reqwest::header::InvalidHeaderValue>)
    ensures
        r is Ok <==> header_bytes_ok(encode_utf8(s@)),
{
    reqwest::header::HeaderValue::from_str(s)
}

pub open spec fn bearer(token: Seq<char>) -> Seq<char> {
    "Bearer "@ + token
}

pub open spec fn invalid_token_message() -> Seq<char> {
    "HuggingFace token contains invalid characters"@
}

/// The text of the `Authorization` header for an optional token:
/// `Bearer <token>`. A token that cannot appear in a header value is rejected
/// with a fixed message.
pub fn authorization_header(token: Option<&str>) -> (r: Result<Option<String>, String>)
    ensures
        token is None ==> r matches Ok(None),
        token matches Some(t) ==> (r is Ok <==> header_bytes_ok(encode_utf8(bearer(t@)))),
        token matches Some(t) ==> (r matches Ok(v) ==> v matches Some(h) && h@ == bearer(t@)),
        r matches Err(e) ==> e@ == invalid_token_message(),
{
    match token {
        None => Ok(None),
        Some(t) => {
            let value = prefixed("Bearer ", t);
            match parse_header_value(value.as_str()) {
                Ok(_) => Ok(Some(value)),
                Err(_) => Err(String::from_str("HuggingFace token contains invalid characters")),
            }
        },
    }
}

} // verus!
