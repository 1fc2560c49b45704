//! Download bookkeeping: the single-download slot with its cancel flag, and
//! the rolling-window speed tracker.

use std::collections::VecDeque;

use vstd::prelude::*;

verus! {

// ── Download slot and cancel flag ────────────────────────────────────────────

/// Plain model of the download state: whether a download holds the slot and
/// whether cancellation was requested.
pub struct DownloadFlags {
    pub active: bool,
    pub cancelled: bool,
}

/// State after a `start` call, and whether it succeeded.
pub open spec fn after_start(f: DownloadFlags) -> (DownloadFlags, bool) {
    if f.active {
        (f, false)
    } else {
        (DownloadFlags { active: true, cancelled: false }, true)
    }
}

pub open spec fn after_finish(f: DownloadFlags) -> DownloadFlags {
    DownloadFlags { active: false, cancelled: f.cancelled }
}

pub open spec fn after_cancel(f: DownloadFlags) -> DownloadFlags {
    DownloadFlags { active: f.active, cancelled: true }
}

pub open spec fn already_running_message() -> Seq<char> {
    "A download is already in progress"@
}

/// Limits downloads to one at a time and carries the cancel flag.
///
/// The slot is taken by `start` and given back by `finish`; the flag is reset
/// only when the slot is taken, so a refused `start` cannot clear the cancel
/// request of the download that is still running.
pub struct DownloadState {
    active: bool,
    cancel: bool,
}

impl DownloadState {
    pub closed spec fn flags(&self) -> DownloadFlags {
        DownloadFlags { active: self.active, cancelled: self.cancel }
    }

    /// An idle state: no download, no cancel request.
    pub fn new() -> (s: Self)
        ensures
            s.flags() == (DownloadFlags { active: false, cancelled: false }),
    {
        DownloadState { active: false, cancel: false }
    }

    /// Takes the download slot and resets the cancel flag. Fails without
    /// touching the state when a download already holds the slot.
    pub fn start(&mut self) -> (r: Result<(), String>)
        ensures
            (final(self).flags(), r is Ok) == after_start(old(self).flags()),
            r matches Err(e) ==> e@ == already_running_message(),
    {
        if self.active {
            return Err(String::from_str("A download is already in progress"));
        }
        self.active = true;
        self.cancel = false;
        Ok(())
    }

    /// Gives the slot back when a download ends, however it ends.
    pub fn finish(&mut self)
        ensures
            final(self).flags() == after_finish(old(self).flags()),
    {
        self.active = false;
    }

    /// Signals any in-progress download to stop.
    pub fn request_cancel(&mut self)
        ensures
            final(self).flags() == after_cancel(old(self).flags()),
    {
        self.cancel = true;
    }

    pub fn is_cancelled(&self) -> (b: bool)
        ensures
            b == self.flags().cancelled,
    {
        self.cancel
    }

    pub fn is_active(&self) -> (b: bool)
        ensures
            b == self.flags().active,
    {
        self.active
    }
}

impl Default for DownloadState {
    fn default() -> (s: Self)
        ensures
            s.flags() == (DownloadFlags { active: false, cancelled: false }),
    {
        DownloadState::new()
    }
}

/// At most one download at a time: a second `start` without a `finish` in
/// between is refused, whatever happened to the first.
pub proof fn law_single_download(f: DownloadFlags)
    ensures
        !after_start(after_start(f).0).1,
        after_start(f).1 ==> after_start(after_cancel(after_start(f).0)).1 == false,
{
}

/// A refused `start` leaves a pending cancel request in place.
pub proof fn law_refused_start_keeps_cancel(f: DownloadFlags)
    requires
        f.active,
    ensures
        after_start(after_cancel(f)).0.cancelled,
        !after_start(after_cancel(f)).1,
{
}

/// A successful `start` always begins uncancelled; `finish` then frees the slot
/// for the next download.
pub proof fn law_start_finish_start(f: DownloadFlags)
    requires
        !f.active,
    ensures
        after_start(f).1,
        !after_start(f).0.cancelled,
        after_start(after_finish(after_cancel(after_start(f).0))).1,
        !after_start(after_finish(after_cancel(after_start(f).0))).0.cancelled,
{
}

// ── Rolling-window speed tracker ─────────────────────────────────────────────

/// Samples older than this are dropped from the window (4 s).
pub const SPEED_WINDOW_NS: u64 = 4_000_000_000;

/// A window narrower than this gives no estimate (50 ms).
pub const MIN_WINDOW_NS: u64 = 50_000_000;

/// Bytes gained over a time span, the inputs of a speed estimate.
pub struct SpeedSample {
    pub bytes: u64,
    pub elapsed_ns: u64,
}

pub open spec fn sat_sub(a: u64, b: u64) -> u64 {
    if a >= b { (a - b) as u64 } else { 0 }
}

/// Drops samples from the front while they are older than the window.
pub open spec fn prune(s: Seq<(u64, u64)>, now: u64) -> Seq<(u64, u64)>
    decreases s.len(),
{
    if s.len() > 0 && sat_sub(now, s[0].0) > SPEED_WINDOW_NS {
        prune(s.drop_first(), now)
    } else {
        s
    }
}

/// What `record` answers for the pruned window `w` at time `now`.
pub open spec fn window_estimate(w: Seq<(u64, u64)>, now: u64, bytes: u64) -> Option<SpeedSample> {
    if w.len() == 0 || sat_sub(now, w[0].0) < MIN_WINDOW_NS {
        None
    } else {
        Some(SpeedSample { bytes: sat_sub(bytes, w[0].1), elapsed_ns: sat_sub(now, w[0].0) })
    }
}

/// `a - b`, or 0 when `b > a`.
pub fn saturating_gap(a: u64, b: u64) -> (r: u64)
    ensures
        r == sat_sub(a, b),
{
    if a >= b { a - b } else { 0 }
}

/// Keeps `(time_ns, cumulative_bytes)` samples, oldest first, and derives
/// bytes gained over the last few seconds.
pub struct SpeedTracker {
    samples: VecDeque<(u64, u64)>,
}

impl SpeedTracker {
    pub closed spec fn window(&self) -> Seq<(u64, u64)> {
        self.samples@
    }

    pub fn new() -> (t: Self)
        ensures
            t.window() == Seq::<(u64, u64)>::empty(),
    {
        SpeedTracker { samples: VecDeque::with_capacity(32) }
    }

    /// Records the cumulative byte count at `now_ns`, drops samples that have
    /// fallen out of the window, and returns the bytes gained since the oldest
    /// remaining sample with the time elapsed since it; `None` while that time
    /// is under 50 ms.
    pub fn record(&mut self, now_ns: u64, bytes: u64) -> (r: Option<SpeedSample>)
        ensures
            final(self).window() == prune(old(self).window().push((now_ns, bytes)), now_ns),
            r == window_estimate(final(self).window(), now_ns, bytes),
    {
        self.samples.push_back((now_ns, bytes));
        let ghost pushed = self.samples@;
        while self.samples.len() > 0 && saturating_gap(now_ns, self.samples[0].0) > SPEED_WINDOW_NS
            invariant
                prune(pushed, now_ns) == prune(self.samples@, now_ns),
            decreases self.samples@.len(),
        {
            proof {
                assert(self.samples@.drop_first() =~= self.samples@.subrange(1, self.samples@.len() as int));
            }
            self.samples.pop_front();
        }
        if self.samples.len() == 0 {
            return None;
        }
        let (oldest_t, oldest_bytes) = self.samples[0];
        let elapsed = saturating_gap(now_ns, oldest_t);
        if elapsed < MIN_WINDOW_NS {
            return None;
        }
        let gained = saturating_gap(bytes, oldest_bytes);
        Some(SpeedSample { bytes: gained, elapsed_ns: elapsed })
    }
}

/// The sample just recorded always stays in the window, as its last element,
/// so the window is never empty after `record`.
pub proof fn law_record_keeps_latest(s: Seq<(u64, u64)>, now: u64, bytes: u64)
    ensures
        prune(s.push((now, bytes)), now).len() > 0,
        prune(s.push((now, bytes)), now).last() == (now, bytes),
    decreases s.len(),
{
    let p = s.push((now, bytes));
    if s.len() > 0 && sat_sub(now, s[0].0) > SPEED_WINDOW_NS {
        assert(p.drop_first() =~= s.drop_first().push((now, bytes)));
        law_record_keeps_latest(s.drop_first(), now, bytes);
    }
}

/// The estimate is taken against the oldest sample of the window, however
/// many samples it holds: once that sample is at least 50 ms old, `record`
/// reports the bytes gained since it (0 if the count went down) over the time
/// elapsed since it; before that, or with no sample, it reports nothing.
pub proof fn law_estimate_from_oldest(w: Seq<(u64, u64)>, now: u64, bytes: u64)
    ensures
        w.len() > 0 && w[0].0 <= now && now - w[0].0 >= MIN_WINDOW_NS ==> window_estimate(w, now, bytes) == Some(
            SpeedSample {
                bytes: if bytes >= w[0].1 { (bytes - w[0].1) as u64 } else { 0 },
                elapsed_ns: (now - w[0].0) as u64,
            },
        ),
        w.len() == 0 || now < w[0].0 + MIN_WINDOW_NS ==> window_estimate(w, now, bytes) is None,
{
}

/// After `record`, the oldest sample in the window is at most 4 s old, so the
/// estimate always covers at most the last 4 seconds.
pub proof fn law_window_bounded(s: Seq<(u64, u64)>, now: u64)
    ensures
        prune(s, now).len() > 0 ==> sat_sub(now, prune(s, now)[0].0) <= SPEED_WINDOW_NS,
        prune(s, now).len() <= s.len(),
    decreases s.len(),
{
    if s.len() > 0 && sat_sub(now, s[0].0) > SPEED_WINDOW_NS {
        law_window_bounded(s.drop_first(), now);
    }
}

} // verus!
