//! The archive download driver's decisions: the direct/relay route policy,
//! the per-part fetch attempt, and the per-archive state machine that walks
//! the parts in order, accounts progress, and reaches exactly one terminal
//! status. All I/O — HTTP requests, cache files, the clock — happens in the
//! embedding program, which feeds the outcomes back in as events.

use crate::bytes::dec_digits;
use crate::bytes::push_dec_u64;
use crate::manifest::PartMeta;
use crate::manifest::sorted_by_index;
use crate::registry::TaskStatus;
use vstd::prelude::*;

verus! {

/// How long a failing direct origin is left alone before it is probed
/// again.
pub const DIRECT_RETRY_INTERVAL_MS: u64 = 300_000;

/// Why one fetch attempt failed.
#[derive(Debug, Clone, PartialEq, Eq)]
pub enum FetchError {
    /// The direct URL returned 404: its lifetime ended; refresh and retry.
    Expired,
    /// Another non-2xx status on the direct URL.
    Status(u16),
    /// A non-2xx status from the relay.
    RelayStatus(u16),
    /// A non-2xx status from the refresh endpoint.
    RefreshStatus(u16),
    /// Cancellation observed at a chunk boundary.
    Cancelled,
    /// A network or filesystem failure, with the underlying text.
    Network(Vec<u8>),
}

/// `expired`, as bytes.
pub open spec fn expired_text() -> Seq<u8> {
    seq![101u8, 120u8, 112u8, 105u8, 114u8, 101u8, 100u8]
}

/// `status_`, as bytes.
pub open spec fn status_prefix() -> Seq<u8> {
    seq![115u8, 116u8, 97u8, 116u8, 117u8, 115u8, 95u8]
}

/// `relay_`, as bytes.
pub open spec fn relay_prefix() -> Seq<u8> {
    seq![114u8, 101u8, 108u8, 97u8, 121u8, 95u8]
}

/// `refresh_`, as bytes.
pub open spec fn refresh_prefix() -> Seq<u8> {
    seq![114u8, 101u8, 102u8, 114u8, 101u8, 115u8, 104u8, 95u8]
}

/// `cancelled`, as bytes.
pub open spec fn cancelled_text() -> Seq<u8> {
    seq![99u8, 97u8, 110u8, 99u8, 101u8, 108u8, 108u8, 101u8, 100u8]
}

/// The error's wire text: `expired`, `status_<code>`, `relay_status_<code>`,
/// `refresh_status_<code>`, `cancelled`, or the network failure's own text.
pub open spec fn message_spec(e: FetchError) -> Seq<u8> {
    match e {
        FetchError::Expired => expired_text(),
        FetchError::Status(c) => status_prefix() + dec_digits(c as nat),
        FetchError::RelayStatus(c) => relay_prefix() + status_prefix() + dec_digits(c as nat),
        FetchError::RefreshStatus(c) => refresh_prefix() + status_prefix() + dec_digits(c as nat),
        FetchError::Cancelled => cancelled_text(),
        FetchError::Network(t) => t@,
    }
}

fn push_status_prefix(out: &mut Vec<u8>)
    ensures
        final(out)@ == old(out)@ + status_prefix(),
{
    out.push(115);
    out.push(116);
    out.push(97);
    out.push(116);
    out.push(117);
    out.push(115);
    out.push(95);
    proof {
        assert(out@ =~= old(out)@ + status_prefix());
    }
}

impl FetchError {
    /// Renders the error as its wire text.
    pub fn message(&self) -> (r: Vec<u8>)
        ensures
            r@ == message_spec(*self),
    {
        let mut out: Vec<u8> = Vec::new();
        match self {
            FetchError::Expired => {
                out.push(101);
                out.push(120);
                out.push(112);
                out.push(105);
                out.push(114);
                out.push(101);
                out.push(100);
                proof {
                    assert(out@ =~= expired_text());
                }
            },
            FetchError::Status(c) => {
                push_status_prefix(&mut out);
                push_dec_u64(&mut out, *c as u64);
            },
            FetchError::RelayStatus(c) => {
                out.push(114);
                out.push(101);
                out.push(108);
                out.push(97);
                out.push(121);
                out.push(95);
                proof {
                    assert(out@ =~= relay_prefix());
                }
                push_status_prefix(&mut out);
                push_dec_u64(&mut out, *c as u64);
            },
            FetchError::RefreshStatus(c) => {
                out.push(114);
                out.push(101);
                out.push(102);
                out.push(114);
                out.push(101);
                out.push(115);
                out.push(104);
                out.push(95);
                proof {
                    assert(out@ =~= refresh_prefix());
                }
                push_status_prefix(&mut out);
                push_dec_u64(&mut out, *c as u64);
            },
            FetchError::Cancelled => {
                out.push(99);
                out.push(97);
                out.push(110);
                out.push(99);
                out.push(101);
                out.push(108);
                out.push(108);
                out.push(101);
                out.push(100);
                proof {
                    assert(out@ =~= cancelled_text());
                }
            },
            FetchError::Network(t) => {
                out = crate::bytes::copy_bytes(t.as_slice());
            },
        }
        out
    }
}

/// Sorts a direct HTTP status: 404 is the distinguished `expired`; other
/// non-2xx codes are terminal for the attempt.
pub fn classify_direct_status(code: u16) -> (r: Result<(), FetchError>)
    ensures
        r == (if code == 404 {
            Result::<(), FetchError>::Err(FetchError::Expired)
        } else if 200 <= code < 300 {
            Result::<(), FetchError>::Ok(())
        } else {
            Result::<(), FetchError>::Err(FetchError::Status(code))
        }),
{
    if code == 404 {
        Err(FetchError::Expired)
    } else if 200 <= code && code < 300 {
        Ok(())
    } else {
        Err(FetchError::Status(code))
    }
}

/// Sorts a relay HTTP status: any non-2xx fails the relay attempt.
pub fn classify_relay_status(code: u16) -> (r: Result<(), FetchError>)
    ensures
        r == (if 200 <= code < 300 {
            Result::<(), FetchError>::Ok(())
        } else {
            Result::<(), FetchError>::Err(FetchError::RelayStatus(code))
        }),
{
    if 200 <= code && code < 300 {
        Ok(())
    } else {
        Err(FetchError::RelayStatus(code))
    }
}

/// Sorts a refresh HTTP status: any non-2xx fails the refresh.
pub fn classify_refresh_status(code: u16) -> (r: Result<(), FetchError>)
    ensures
        r == (if 200 <= code < 300 {
            Result::<(), FetchError>::Ok(())
        } else {
            Result::<(), FetchError>::Err(FetchError::RefreshStatus(code))
        }),
{
    if 200 <= code && code < 300 {
        Ok(())
    } else {
        Err(FetchError::RefreshStatus(code))
    }
}

/// `server_error:`, as bytes.
pub open spec fn server_error_prefix() -> Seq<u8> {
    seq![
        115u8,
        101u8,
        114u8,
        118u8,
        101u8,
        114u8,
        95u8,
        101u8,
        114u8,
        114u8,
        111u8,
        114u8,
        58u8,
    ]
}

/// Sorts the manifest fetch's HTTP status: any non-2xx fails the archive
/// before it starts, with the `server_error:<code>` text.
pub fn classify_manifest_status(code: u16) -> (r: Result<(), Vec<u8>>)
    ensures
        (200 <= code < 300) <==> r is Ok,
        r matches Err(m) ==> m@ == server_error_prefix() + dec_digits(code as nat),
{
    if 200 <= code && code < 300 {
        Ok(())
    } else {
        let mut out: Vec<u8> = Vec::new();
        out.push(115);
        out.push(101);
        out.push(114);
        out.push(118);
        out.push(101);
        out.push(114);
        out.push(95);
        out.push(101);
        out.push(114);
        out.push(114);
        out.push(111);
        out.push(114);
        out.push(58);
        proof {
            assert(out@ =~= server_error_prefix());
        }
        push_dec_u64(&mut out, code as u64);
        Err(out)
    }
}

/// The direct/relay route policy of one archive download. Direct URLs are
/// preferred; after a failed direct attempt the driver stays on the relay
/// and probes the direct path again only after the retry interval.
pub struct RoutePolicy {
    /// Whether the last word from the direct path was good.
    pub prefer_direct: bool,
    /// When the direct path may be probed again, while not preferred.
    pub next_direct_check_ms: u64,
}

impl RoutePolicy {
    /// Whether a part entered now should try the direct path first.
    pub open spec fn try_direct_spec(self, now_ms: u64) -> bool {
        self.prefer_direct || now_ms >= self.next_direct_check_ms
    }

    /// A fresh policy: direct preferred.
    pub fn new() -> (r: Self)
        ensures
            r.prefer_direct,
            r.next_direct_check_ms == 0,
    {
        RoutePolicy { prefer_direct: true, next_direct_check_ms: 0 }
    }

    /// Whether to try the direct path for the part entered now.
    pub fn should_try_direct(&self, now_ms: u64) -> (r: bool)
        ensures
            r == self.try_direct_spec(now_ms),
    {
        self.prefer_direct || now_ms >= self.next_direct_check_ms
    }

    /// A fetch succeeded, on either path: prefer the direct path again and
    /// clear the back-off.
    pub fn record_success(&mut self)
        ensures
            final(self).prefer_direct,
            final(self).next_direct_check_ms == 0,
    {
        self.prefer_direct = true;
        self.next_direct_check_ms = 0;
    }

    /// The direct path failed for a part: fall back to the relay and leave
    /// the origin alone for the retry interval.
    pub fn record_direct_failure(&mut self, now_ms: u64)
        requires
            now_ms + DIRECT_RETRY_INTERVAL_MS <= u64::MAX,
        ensures
            !final(self).prefer_direct,
            final(self).next_direct_check_ms == now_ms + DIRECT_RETRY_INTERVAL_MS,
    {
        self.prefer_direct = false;
        self.next_direct_check_ms = now_ms + DIRECT_RETRY_INTERVAL_MS;
    }
}

/// Where one part's fetch attempt stands.
#[derive(Debug, Clone, PartialEq, Eq)]
pub enum FetchPhase {
    /// Try the direct URL.
    Direct,
    /// The direct URL expired: ask for a fresh one.
    Refresh,
    /// Try the refreshed direct URL, once.
    RetryDirect,
    /// Try the relay.
    Relay,
    /// The part's bytes are in the cache file.
    Succeeded { via_direct: bool },
    /// The attempt is over without the bytes: the relay failed, or a
    /// cancellation was observed; `failure` says which.
    Failed,
}

/// One part's fetch attempt: direct first when the policy allows, one
/// refresh-and-retry on `expired`, then the relay; the relay's failure is
/// final.
#[derive(Debug)]
pub struct PartFetch {
    /// The part being fetched.
    pub part_index: u64,
    /// The direct URL to use; replaced by a successful refresh.
    pub url: Vec<u8>,
    /// Where the attempt stands.
    pub phase: FetchPhase,
    /// What ended a `Failed` attempt: the relay's error, or `Cancelled`.
    pub failure: Option<FetchError>,
}

/// The outcome of one outside call, fed back into the attempt.
pub enum FetchStep {
    /// A direct GET finished (for `Direct` and `RetryDirect`).
    Direct(Result<(), FetchError>),
    /// The refresh endpoint answered: a fresh URL, or an error.
    Refresh(Result<Vec<u8>, FetchError>),
    /// A relay GET finished.
    Relay(Result<(), FetchError>),
}

/// Whether the event is the one the attempt's phase is waiting for.
pub open spec fn event_fits(phase: FetchPhase, ev: FetchStep) -> bool {
    match ev {
        FetchStep::Direct(_) => phase == FetchPhase::Direct || phase == FetchPhase::RetryDirect,
        FetchStep::Refresh(_) => phase == FetchPhase::Refresh,
        FetchStep::Relay(_) => phase == FetchPhase::Relay,
    }
}

/// The transition of one attempt on one event: the next attempt state and
/// the route policy after it. Any success, via either path, returns the
/// policy to preferring direct with the back-off cleared; a cancellation
/// ends the attempt at once, books no back-off and tries nothing further.
pub open spec fn fetch_transition(
    s: PartFetch,
    p: RoutePolicy,
    ev: FetchStep,
    now_ms: u64,
) -> (PartFetch, RoutePolicy) {
    let relay_fallback = RoutePolicy {
        prefer_direct: false,
        next_direct_check_ms: (now_ms + DIRECT_RETRY_INTERVAL_MS) as u64,
    };
    let direct_again = RoutePolicy { prefer_direct: true, next_direct_check_ms: 0 };
    match ev {
        FetchStep::Direct(res) => match res {
            Result::Ok(_) => (
                PartFetch { phase: FetchPhase::Succeeded { via_direct: true }, ..s },
                direct_again,
            ),
            Result::Err(e) => if e == FetchError::Cancelled {
                (PartFetch { phase: FetchPhase::Failed, failure: Option::Some(e), ..s }, p)
            } else if s.phase == FetchPhase::Direct && e == FetchError::Expired {
                (PartFetch { phase: FetchPhase::Refresh, ..s }, p)
            } else {
                (PartFetch { phase: FetchPhase::Relay, ..s }, relay_fallback)
            },
        },
        FetchStep::Refresh(res) => match res {
            Result::Ok(url) => (PartFetch { phase: FetchPhase::RetryDirect, url, ..s }, p),
            Result::Err(e) => if e == FetchError::Cancelled {
                (PartFetch { phase: FetchPhase::Failed, failure: Option::Some(e), ..s }, p)
            } else {
                (PartFetch { phase: FetchPhase::Relay, ..s }, relay_fallback)
            },
        },
        FetchStep::Relay(res) => match res {
            Result::Ok(_) => (
                PartFetch { phase: FetchPhase::Succeeded { via_direct: false }, ..s },
                direct_again,
            ),
            Result::Err(e) => (
                PartFetch { phase: FetchPhase::Failed, failure: Option::Some(e), ..s },
                p,
            ),
        },
    }
}

impl PartFetch {
    /// Starts an attempt for one part: at the direct URL when the policy
    /// says so, else straight at the relay.
    pub fn new(part_index: u64, url: Vec<u8>, try_direct: bool) -> (r: Self)
        ensures
            r.part_index == part_index,
            r.url == url,
            r.phase == (if try_direct {
                FetchPhase::Direct
            } else {
                FetchPhase::Relay
            }),
            r.failure is None,
    {
        PartFetch {
            part_index,
            url,
            phase: if try_direct {
                FetchPhase::Direct
            } else {
                FetchPhase::Relay
            },
            failure: None,
        }
    }

    /// Feeds one outside outcome into the attempt, stepping it and the
    /// route policy exactly as `fetch_transition` says: any success, direct
    /// or relay, restores the direct preference and clears the back-off;
    /// `expired` on the first direct try goes through one refresh and
    /// retry; any other direct failure books the fallback and goes to the
    /// relay; a cancellation ends the attempt at once; the relay's error is
    /// final.
    pub fn step(&mut self, ev: FetchStep, policy: &mut RoutePolicy, now_ms: u64)
        requires
            event_fits(old(self).phase, ev),
            now_ms + DIRECT_RETRY_INTERVAL_MS <= u64::MAX,
        ensures
            (*final(self), *final(policy)) == fetch_transition(*old(self), *old(policy), ev, now_ms),
    {
        match ev {
            FetchStep::Direct(res) => match res {
                Ok(_) => {
                    self.phase = FetchPhase::Succeeded { via_direct: true };
                    policy.record_success();
                },
                Err(e) => {
                    let cancelled = match e {
                        FetchError::Cancelled => true,
                        _ => false,
                    };
                    let first_try = match self.phase {
                        FetchPhase::Direct => true,
                        _ => false,
                    };
                    let expired = match e {
                        FetchError::Expired => true,
                        _ => false,
                    };
                    if cancelled {
                        self.phase = FetchPhase::Failed;
                        self.failure = Some(e);
                    } else if first_try && expired {
                        self.phase = FetchPhase::Refresh;
                    } else {
                        self.phase = FetchPhase::Relay;
                        policy.record_direct_failure(now_ms);
                    }
                },
            },
            FetchStep::Refresh(res) => match res {
                Ok(url) => {
                    self.url = url;
                    self.phase = FetchPhase::RetryDirect;
                },
                Err(e) => {
                    let cancelled = match e {
                        FetchError::Cancelled => true,
                        _ => false,
                    };
                    if cancelled {
                        self.phase = FetchPhase::Failed;
                        self.failure = Some(e);
                    } else {
                        self.phase = FetchPhase::Relay;
                        policy.record_direct_failure(now_ms);
                    }
                },
            },
            FetchStep::Relay(res) => match res {
                Ok(_) => {
                    self.phase = FetchPhase::Succeeded { via_direct: false };
                    policy.record_success();
                },
                Err(e) => {
                    self.phase = FetchPhase::Failed;
                    self.failure = Some(e);
                },
            },
        }
    }
}

/// Sum of the listed part sizes, in bytes.
pub open spec fn sum_sizes(s: Seq<PartMeta>) -> int
    decreases s.len(),
{
    if s.len() == 0 {
        0
    } else {
        sum_sizes(s.drop_last()) + s.last().size
    }
}

/// Accounting one more part adds exactly its size.
pub proof fn lemma_sum_take_succ(s: Seq<PartMeta>, i: int)
    requires
        0 <= i < s.len(),
    ensures
        sum_sizes(s.take(i + 1)) == sum_sizes(s.take(i)) + s[i].size,
{
    assert(s.take(i + 1).drop_last() =~= s.take(i));
    assert(s.take(i + 1).last() == s[i]);
}

/// The accounted bytes of a prefix never exceed the whole: `downloaded`
/// never exceeds the sum of all part sizes.
pub proof fn lemma_sum_prefix(s: Seq<PartMeta>, i: int)
    requires
        0 <= i <= s.len(),
    ensures
        sum_sizes(s.take(i)) <= sum_sizes(s),
        sum_sizes(s.take(i)) >= 0,
    decreases s.len() - i,
{
    lemma_sum_nonneg(s.take(i));
    if i == s.len() {
        assert(s.take(i) =~= s);
    } else {
        lemma_sum_take_succ(s, i);
        lemma_sum_prefix(s, i + 1);
    }
}

/// Part sizes are non-negative, so the sum is.
pub proof fn lemma_sum_nonneg(s: Seq<PartMeta>)
    ensures
        sum_sizes(s) >= 0,
    decreases s.len(),
{
    if s.len() > 0 {
        lemma_sum_nonneg(s.drop_last());
    }
}

/// One `download-progress` payload.
#[derive(Debug, Clone, Copy, PartialEq, Eq, Structural)]
pub struct ProgressEvent {
    /// Cumulative ciphertext bytes accounted so far.
    pub downloaded: u64,
    /// The expected total, when the manifest gives one.
    pub total: Option<u64>,
    /// Bytes per second since the previous emission; 0 on terminal events.
    pub speed: u64,
    /// The task's status at emission.
    pub status: TaskStatus,
}

/// Where the archive download stands.
#[derive(Debug, Clone, Copy, PartialEq, Eq, Structural)]
pub enum DriverPhase {
    /// About to enter the next part (or done with all of them).
    BeforePart,
    /// Waiting for the cache check of the current part.
    CheckingCache,
    /// Waiting for the current part's fetch attempt.
    Fetching,
    /// Waiting for the hash verification of the fetched part.
    Verifying,
    /// All parts cached and verified; waiting for the decryptor.
    Decrypting,
    /// Terminal; `outcome` says how it ended.
    Finished,
}

/// What to do on entering a part.
#[derive(Debug, Clone, Copy, PartialEq, Eq, Structural)]
pub enum PartDecision {
    /// Cancellation observed: the task is paused.
    Pause,
    /// All parts are in the cache: run the decryptor.
    Decrypt,
    /// Check the cache file of this part.
    CheckCache { index: u64 },
}

/// What to do after the cache check.
#[derive(Debug)]
pub enum CacheDecision {
    /// The cached copy is valid: the part is accounted, nothing is fetched.
    Skip,
    /// Fetch the part, starting where the route policy says.
    Fetch(PartFetch),
}

/// The capped bytes-per-second figure: bytes since the last emission, per
/// elapsed second.
pub open spec fn speed_spec(delta: int, elapsed_ms: int) -> int
    recommends
        elapsed_ms > 0,
{
    let s = delta * 1000 / elapsed_ms;
    if s > 0xffff_ffff_ffff_ffff {
        0xffff_ffff_ffff_ffff
    } else {
        s
    }
}

/// The per-archive download driver: walks the sorted parts in order,
/// accounts `downloaded` monotonically, observes cancellation at every part
/// boundary, and reaches exactly one terminal status. The embedding program
/// performs the I/O each decision asks for and feeds the outcome back.
pub struct Driver {
    /// The manifest's parts, ascending by index.
    pub parts: Vec<PartMeta>,
    /// How many parts are accounted (cached and verified, or skipped).
    pub cur: usize,
    /// Cumulative ciphertext bytes of the accounted parts.
    pub downloaded: u64,
    /// The manifest's size, for progress events.
    pub total: Option<u64>,
    /// The direct/relay route policy.
    pub policy: RoutePolicy,
    /// When the last progress event was emitted.
    pub last_emit_ms: u64,
    /// `downloaded` at the last progress emission.
    pub last_bytes: u64,
    /// Where the download stands.
    pub phase: DriverPhase,
    /// How it ended; meaningful once `Finished`.
    pub outcome: TaskStatus,
}

impl Driver {
    /// Internal consistency: `downloaded` is exactly the size of the
    /// accounted prefix, so it never exceeds the sum of all part sizes.
    pub open spec fn wf(self) -> bool {
        &&& self.cur <= self.parts@.len()
        &&& sum_sizes(self.parts@) <= u64::MAX
        &&& self.downloaded as int == sum_sizes(self.parts@.take(self.cur as int))
        &&& self.last_bytes <= self.downloaded
        &&& ((self.phase == DriverPhase::CheckingCache || self.phase == DriverPhase::Fetching
            || self.phase == DriverPhase::Verifying) ==> self.cur < self.parts@.len())
    }

    /// Starts a driver over the sorted parts of one manifest.
    pub fn new(parts: Vec<PartMeta>, total: Option<u64>, now_ms: u64) -> (r: Self)
        requires
            sorted_by_index(parts@),
            sum_sizes(parts@) <= u64::MAX,
        ensures
            r.wf(),
            r == (Driver {
                parts,
                cur: 0,
                downloaded: 0,
                total,
                policy: RoutePolicy { prefer_direct: true, next_direct_check_ms: 0 },
                last_emit_ms: now_ms,
                last_bytes: 0,
                phase: DriverPhase::BeforePart,
                outcome: TaskStatus::Queued,
            }),
    {
        let r = Driver {
            parts,
            cur: 0,
            downloaded: 0,
            total,
            policy: RoutePolicy::new(),
            last_emit_ms: now_ms,
            last_bytes: 0,
            phase: DriverPhase::BeforePart,
            outcome: TaskStatus::Queued,
        };
        proof {
            assert(r.parts@.take(0) =~= Seq::<PartMeta>::empty());
        }
        r
    }

    /// The initial `queued` progress event.
    pub fn initial_progress(&self) -> (r: ProgressEvent)
        ensures
            r == (ProgressEvent {
                downloaded: self.downloaded,
                total: self.total,
                speed: 0,
                status: TaskStatus::Queued,
            }),
    {
        ProgressEvent { downloaded: self.downloaded, total: self.total, speed: 0, status: TaskStatus::Queued }
    }

    /// The terminal progress event, once the driver is finished.
    pub fn terminal_progress(&self) -> (r: ProgressEvent)
        requires
            self.phase == DriverPhase::Finished,
        ensures
            r == (ProgressEvent {
                downloaded: self.downloaded,
                total: self.total,
                speed: 0,
                status: self.outcome,
            }),
    {
        ProgressEvent { downloaded: self.downloaded, total: self.total, speed: 0, status: self.outcome }
    }

    /// Enters the next part. Cancellation is observed here, before any work
    /// on the part, and pauses the task at once; with no parts left the
    /// decryptor runs; otherwise the part's cache file is checked.
    pub fn begin_part(&mut self, cancelled: bool) -> (r: PartDecision)
        requires
            old(self).wf(),
            old(self).phase == DriverPhase::BeforePart,
        ensures
            final(self).wf(),
            final(self).downloaded == old(self).downloaded,
            r == (if cancelled {
                PartDecision::Pause
            } else if old(self).cur == old(self).parts@.len() {
                PartDecision::Decrypt
            } else {
                PartDecision::CheckCache { index: old(self).parts@[old(self).cur as int].index }
            }),
            *final(self) == (Driver {
                phase: if cancelled {
                    DriverPhase::Finished
                } else if old(self).cur == old(self).parts@.len() {
                    DriverPhase::Decrypting
                } else {
                    DriverPhase::CheckingCache
                },
                outcome: if cancelled {
                    TaskStatus::Paused
                } else {
                    old(self).outcome
                },
                ..*old(self)
            }),
    {
        if cancelled {
            self.phase = DriverPhase::Finished;
            self.outcome = TaskStatus::Paused;
            return PartDecision::Pause;
        }
        if self.cur == self.parts.len() {
            self.phase = DriverPhase::Decrypting;
            return PartDecision::Decrypt;
        }
        self.phase = DriverPhase::CheckingCache;
        PartDecision::CheckCache { index: self.parts[self.cur].index }
    }

    /// Takes the cache check's verdict. A valid cached part is accounted
    /// and never re-fetched; an invalid or missing one is fetched, starting
    /// on the path the route policy names.
    pub fn on_cache(&mut self, valid: bool, now_ms: u64) -> (r: CacheDecision)
        requires
            old(self).wf(),
            old(self).phase == DriverPhase::CheckingCache,
        ensures
            final(self).wf(),
            final(self).downloaded >= old(self).downloaded,
            ({
                let part = old(self).parts@[old(self).cur as int];
                match r {
                    CacheDecision::Skip => valid && *final(self) == (Driver {
                        cur: (old(self).cur + 1) as usize,
                        downloaded: (old(self).downloaded + part.size) as u64,
                        phase: DriverPhase::BeforePart,
                        ..*old(self)
                    }),
                    CacheDecision::Fetch(f) => {
                        &&& !valid
                        &&& *final(self) == (Driver { phase: DriverPhase::Fetching, ..*old(self) })
                        &&& f.part_index == part.index
                        &&& f.url@ == part.url@
                        &&& f.phase == (if old(self).policy.try_direct_spec(now_ms) {
                            FetchPhase::Direct
                        } else {
                            FetchPhase::Relay
                        })
                        &&& f.failure is None
                    },
                }
            }),
    {
        proof {
            lemma_sum_take_succ(self.parts@, self.cur as int);
            lemma_sum_prefix(self.parts@, self.cur + 1 as int);
            lemma_sum_prefix(self.parts@, self.cur as int);
        }
        if valid {
            let n = self.parts.len();
            proof {
                assert(self.cur < n);
            }
            let size = self.parts[self.cur].size;
            self.downloaded = self.downloaded + size;
            self.cur = self.cur + 1;
            self.phase = DriverPhase::BeforePart;
            CacheDecision::Skip
        } else {
            let try_direct = self.policy.should_try_direct(now_ms);
            let url = crate::bytes::copy_bytes(self.parts[self.cur].url.as_slice());
            let index = self.parts[self.cur].index;
            self.phase = DriverPhase::Fetching;
            CacheDecision::Fetch(PartFetch::new(index, url, try_direct))
        }
    }

    /// Takes the fetch attempt's outcome: on success the fresh cache file
    /// is verified next; when both paths failed the archive fails.
    pub fn on_fetched(&mut self, succeeded: bool)
        requires
            old(self).wf(),
            old(self).phase == DriverPhase::Fetching,
        ensures
            final(self).wf(),
            final(self).downloaded == old(self).downloaded,
            *final(self) == (Driver {
                phase: if succeeded {
                    DriverPhase::Verifying
                } else {
                    DriverPhase::Finished
                },
                outcome: if succeeded {
                    old(self).outcome
                } else {
                    TaskStatus::Error
                },
                ..*old(self)
            }),
    {
        if succeeded {
            self.phase = DriverPhase::Verifying;
        } else {
            self.phase = DriverPhase::Finished;
            self.outcome = TaskStatus::Error;
        }
    }

    /// Cancellation observed at a chunk boundary inside a transfer: the
    /// task is paused, as at a part boundary; the truncated cache file
    /// stays behind for the next resume.
    pub fn on_cancelled(&mut self)
        requires
            old(self).wf(),
            old(self).phase == DriverPhase::Fetching,
        ensures
            final(self).wf(),
            final(self).downloaded == old(self).downloaded,
            *final(self) == (Driver {
                phase: DriverPhase::Finished,
                outcome: TaskStatus::Paused,
                ..*old(self)
            }),
    {
        self.phase = DriverPhase::Finished;
        self.outcome = TaskStatus::Paused;
    }

    /// Takes the verification verdict for a freshly fetched part. A hash
    /// mismatch after a clean transfer fails the archive with no retry; a
    /// verified part is accounted, and a progress event goes out when at
    /// least half a second has passed since the last one.
    pub fn on_verified(&mut self, valid: bool, now_ms: u64) -> (r: Option<ProgressEvent>)
        requires
            old(self).wf(),
            old(self).phase == DriverPhase::Verifying,
        ensures
            final(self).wf(),
            final(self).downloaded >= old(self).downloaded,
            ({
                let part = old(self).parts@[old(self).cur as int];
                let nd = (old(self).downloaded + part.size) as u64;
                let elapsed = if now_ms >= old(self).last_emit_ms {
                    now_ms - old(self).last_emit_ms
                } else {
                    0
                };
                if !valid {
                    r is None && *final(self) == (Driver {
                        phase: DriverPhase::Finished,
                        outcome: TaskStatus::Error,
                        ..*old(self)
                    })
                } else if elapsed >= 500 {
                    r == Option::Some(
                        (ProgressEvent {
                            downloaded: nd,
                            total: old(self).total,
                            speed: speed_spec(nd - old(self).last_bytes, elapsed) as u64,
                            status: TaskStatus::Downloading,
                        }),
                    ) && *final(self) == (Driver {
                        cur: (old(self).cur + 1) as usize,
                        downloaded: nd,
                        last_emit_ms: now_ms,
                        last_bytes: nd,
                        phase: DriverPhase::BeforePart,
                        ..*old(self)
                    })
                } else {
                    r is None && *final(self) == (Driver {
                        cur: (old(self).cur + 1) as usize,
                        downloaded: nd,
                        phase: DriverPhase::BeforePart,
                        ..*old(self)
                    })
                }
            }),
    {
        if !valid {
            self.phase = DriverPhase::Finished;
            self.outcome = TaskStatus::Error;
            return None;
        }
        proof {
            lemma_sum_take_succ(self.parts@, self.cur as int);
            lemma_sum_prefix(self.parts@, self.cur + 1 as int);
            lemma_sum_prefix(self.parts@, self.cur as int);
        }
        let n = self.parts.len();
        proof {
            assert(self.cur < n);
        }
        let size = self.parts[self.cur].size;
        self.downloaded = self.downloaded + size;
        self.cur = self.cur + 1;
        self.phase = DriverPhase::BeforePart;
        let elapsed = if now_ms >= self.last_emit_ms {
            now_ms - self.last_emit_ms
        } else {
            0
        };
        if elapsed >= 500 {
            let delta = self.downloaded - self.last_bytes;
            let sp128 = (delta as u128) * 1000 / (elapsed as u128);
            let speed = if sp128 > 0xffff_ffff_ffff_ffffu128 {
                0xffff_ffff_ffff_ffffu64
            } else {
                sp128 as u64
            };
            self.last_emit_ms = now_ms;
            self.last_bytes = self.downloaded;
            Some(
                ProgressEvent {
                    downloaded: self.downloaded,
                    total: self.total,
                    speed,
                    status: TaskStatus::Downloading,
                },
            )
        } else {
            None
        }
    }

    /// The decryptor finished: `Completed` on success, `Error` otherwise.
    pub fn on_decrypted(&mut self, ok: bool)
        requires
            old(self).wf(),
            old(self).phase == DriverPhase::Decrypting,
        ensures
            final(self).wf(),
            final(self).downloaded == old(self).downloaded,
            *final(self) == (Driver {
                phase: DriverPhase::Finished,
                outcome: if ok {
                    TaskStatus::Completed
                } else {
                    TaskStatus::Error
                },
                ..*old(self)
            }),
    {
        self.phase = DriverPhase::Finished;
        self.outcome = if ok {
            TaskStatus::Completed
        } else {
            TaskStatus::Error
        };
    }
}

} // verus!
