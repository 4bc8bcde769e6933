//! Timing protection: coarse time stamps and fixed artificial delays.
use vstd::prelude::*;
use std::time::Duration;
use crate::duration::millis;

verus! {

broadcast use vstd::string::group_string_axioms;

/// Milliseconds since the Unix epoch by the system clock (0 for a clock set
/// before the epoch), truncated to 64 bits. Calls `SystemTime::elapsed` on the epoch; the
/// contract states nothing of the time.
#[verifier::external_body]
pub(crate) fn now_millis() -> u64 {
    match std::time::UNIX_EPOCH.elapsed() {
        Ok(d) => d.as_millis() as u64,
        Err(_) => 0,
    }
}

/// Precision of a time source.
#[derive(Debug, Clone, Copy, PartialEq, Eq, Structural)]
pub enum TimingPrecision {
    /// milliseconds
    Millisecond,
    /// microseconds
    Microsecond,
    /// nanoseconds
    Nanosecond,
    /// low precision
    Low,
}

/// Errors of timing analysis.
#[derive(Debug)]
pub enum TimingError {
    /// invalid time
    InvalidTime,
    /// detection failed
    DetectionFailed(String),
    /// other error
    Other(String),
}

/// Display text of a timing error.
pub open spec fn timing_error_text(e: TimingError) -> Seq<char> {
    match e {
        TimingError::InvalidTime => "Invalid timing data"@,
        TimingError::DetectionFailed(m) => "Detection failed: "@ + m@,
        TimingError::Other(m) => "Error: "@ + m@,
    }
}

impl TimingError {
    /// The error's display text.
    pub fn to_string(&self) -> (r: String)
        ensures
            r@ == timing_error_text(*self),
    {
        match self {
            TimingError::InvalidTime => String::from_str("Invalid timing data"),
            TimingError::DetectionFailed(m) => {
                let mut s: String = String::from_str("Detection failed: ");
                s.append(m.as_str());
                s
            },
            TimingError::Other(m) => {
                let mut s: String = String::from_str("Error: ");
                s.append(m.as_str());
                s
            },
        }
    }
}

/// `t` rounded down to a multiple of `g`.
pub open spec fn round_down(t: int, g: int) -> int {
    (t / g) * g
}

/// Timing analyzer: remembers the time stamp of the last analysis.
pub struct TimingAnalyzer {
    last_timestamp: u64,
}

impl TimingAnalyzer {
    /// Time stamp of the last analysis, in milliseconds since the epoch.
    pub closed spec fn last_stamp(&self) -> u64 {
        self.last_timestamp
    }

    /// An analyzer whose last time stamp is now.
    pub fn new() -> (r: Self) {
        TimingAnalyzer { last_timestamp: now_millis() }
    }

    /// Time elapsed since the last analysis, in milliseconds, and the new
    /// last time stamp `now`; an error when `now` lies before the last one.
    pub fn drift_at(&mut self, now: u64) -> (r: Result<u64, TimingError>)
        ensures
            final(self).last_stamp() == now,
            now >= old(self).last_stamp() ==> r == Ok::<u64, TimingError>((now - old(self).last_stamp()) as u64),
            now < old(self).last_stamp() ==> r matches Err(TimingError::InvalidTime),
    {
        let last: u64 = self.last_timestamp;
        self.last_timestamp = now;
        if now < last {
            Err(TimingError::InvalidTime)
        } else {
            Ok(now - last)
        }
    }
}

impl Default for TimingAnalyzer {
    /// The same as [`TimingAnalyzer::new`].
    fn default() -> (r: Self) {
        Self::new()
    }
}

/// The time stamp and drift of a timing fingerprint, the parts that
/// anomaly detection and normalisation read.
#[derive(Debug, Clone, Copy)]
pub struct TimingSample {
    /// Time stamp, in milliseconds since the epoch.
    pub timestamp: u64,
    /// Milliseconds since the previous analysis.
    pub drift: i64,
}

/// Sum of the drifts.
pub open spec fn drift_sum(s: Seq<TimingSample>) -> int
    decreases s.len(),
{
    if s.len() == 0 {
        0
    } else {
        drift_sum(s.drop_last()) + s.last().drift
    }
}

/// `a / b` rounded towards zero, as Rust divides integers.
pub open spec fn div_toward_zero(a: int, b: int) -> int {
    if a >= 0 {
        a / b
    } else {
        -((-a) / b)
    }
}

/// Average drift, rounded towards zero.
pub open spec fn average_drift(s: Seq<TimingSample>) -> int {
    div_toward_zero(drift_sum(s), s.len() as int)
}

/// Whether `v` fits in an `i64`.
pub open spec fn fits_i64(v: int) -> bool {
    i64::MIN <= v <= i64::MAX
}

/// The sums of the drifts stay within `i64`, and so do the deviations from
/// the average and twice the average.
pub open spec fn drifts_in_range(s: Seq<TimingSample>) -> bool {
    &&& forall|k: int| 0 <= k <= s.len() ==> fits_i64(#[trigger] drift_sum(s.take(k)))
    &&& s.len() > 0 ==> {
        &&& fits_i64(2 * average_drift(s))
        &&& forall|i: int| 0 <= i < s.len() ==> i64::MIN < #[trigger] s[i].drift - average_drift(s) <= i64::MAX
    }
}

/// Absolute value.
pub open spec fn abs_int(v: int) -> int {
    if v < 0 {
        -v
    } else {
        v
    }
}

/// Whether sample `i` is an anomaly: its drift is further from the average
/// than twice the average.
pub open spec fn is_drift_anomaly(s: Seq<TimingSample>, i: int) -> bool {
    abs_int(s[i].drift - average_drift(s)) > 2 * average_drift(s)
}

/// Smallest time stamp of a non-empty list.
pub open spec fn min_timestamp(s: Seq<TimingSample>) -> u64
    decreases s.len(),
{
    if s.len() <= 1 {
        s[0].timestamp
    } else if s.last().timestamp < min_timestamp(s.drop_last()) {
        s.last().timestamp
    } else {
        min_timestamp(s.drop_last())
    }
}

/// The smallest time stamp is one of them and below all.
pub proof fn lemma_min_timestamp(s: Seq<TimingSample>)
    requires
        s.len() > 0,
    ensures
        forall|i: int| 0 <= i < s.len() ==> min_timestamp(s) <= #[trigger] s[i].timestamp,
    decreases s.len(),
{
    if s.len() > 1 {
        lemma_min_timestamp(s.drop_last());
        assert forall|i: int| 0 <= i < s.len() implies min_timestamp(s) <= #[trigger] s[i].timestamp by {
            if i < s.len() - 1 {
                assert(s[i] == s.drop_last()[i]);
            }
        }
    }
}

/// Timing protection
pub struct TimingProtection;

impl TimingProtection {
    /// The delay, in milliseconds, halfway between `min_ms` and `max_ms`.
    pub fn delay_millis(min_ms: u64, max_ms: u64) -> (r: u64)
        requires
            min_ms <= max_ms,
        ensures
            r == min_ms + (max_ms - min_ms) / 2,
            min_ms <= r <= max_ms,
    {
        min_ms + (max_ms - min_ms) / 2
    }

    /// A delay halfway between `min_ms` and `max_ms` milliseconds: a
    /// `Duration` of [`TimingProtection::delay_millis`] milliseconds. Verus
    /// holds `Duration` opaque, so the contract cannot state the value; the
    /// number of milliseconds is stated by `delay_millis`.
    pub fn add_random_delay(min_ms: u64, max_ms: u64) -> (r: Duration)
        requires
            min_ms <= max_ms,
    {
        millis(Self::delay_millis(min_ms, max_ms))
    }

    /// `timestamp` rounded down to a multiple of `granularity_ms`.
    pub fn obfuscate_time(timestamp: u64, granularity_ms: u64) -> (r: u64)
        requires
            granularity_ms > 0,
        ensures
            r == round_down(timestamp as int, granularity_ms as int),
            r <= timestamp,
            r % granularity_ms == 0,
            timestamp - r < granularity_ms,
    {
        let q: u64 = timestamp / granularity_ms;
        assert(q * granularity_ms <= timestamp && timestamp - q * granularity_ms < granularity_ms
            && (q * granularity_ms) % (granularity_ms as int) == 0) by (nonlinear_arith)
            requires
                q == timestamp / granularity_ms,
                granularity_ms > 0,
        {
            vstd::arithmetic::div_mod::lemma_fundamental_div_mod(timestamp as int, granularity_ms as int);
            vstd::arithmetic::div_mod::lemma_mod_multiples_basic(q as int, granularity_ms as int);
        }
        q * granularity_ms
    }
}

/// Rounding a time stamp down to a granularity twice is rounding it once.
pub proof fn lemma_obfuscate_idempotent(timestamp: u64, granularity_ms: u64)
    requires
        granularity_ms > 0,
    ensures
        round_down(round_down(timestamp as int, granularity_ms as int), granularity_ms as int)
            == round_down(timestamp as int, granularity_ms as int),
{
    let q: int = timestamp as int / granularity_ms as int;
    vstd::arithmetic::div_mod::lemma_div_by_multiple(q, granularity_ms as int);
}

impl TimingProtection {
    /// Indices of the samples whose drift deviates from the average drift
    /// (rounded towards zero) by more than twice that average; none for
    /// fewer than two samples.
    pub fn detect_anomalies(timings: &[TimingSample]) -> (r: Vec<usize>)
        requires
            timings@.len() >= 2 ==> drifts_in_range(timings@),
        ensures
            timings@.len() < 2 ==> r@.len() == 0,
            timings@.len() >= 2 ==> r@ == Seq::new(timings@.len(), |i: int| i as usize).filter(
                |i: usize| is_drift_anomaly(timings@, i as int),
            ),
    {
        if timings.len() < 2 {
            return Vec::new();
        }
        let ghost s = timings@;
        let n: usize = timings.len();
        let mut sum: i64 = 0;
        let mut i: usize = 0;
        while i < n
            invariant
                s == timings@,
                n == s.len(),
                i <= n,
                drifts_in_range(s),
                sum == drift_sum(s.take(i as int)),
            decreases n - i,
        {
            assert(s.take(i + 1).drop_last() =~= s.take(i as int));
            assert(fits_i64(drift_sum(s.take(i + 1))));
            sum = sum + timings[i].drift;
            i = i + 1;
        }
        assert(s.take(n as int) =~= s);
        let mag: u64 = if sum >= 0 { sum as u64 } else { (-(sum as i128)) as u64 };
        let q: u64 = mag / (n as u64);
        assert(q <= mag / 2) by (nonlinear_arith)
            requires
                q == mag / (n as u64),
                n >= 2,
        {
        }
        let avg: i64 = if sum >= 0 { q as i64 } else { -(q as i64) };
        assert(avg == average_drift(s));
        let mut anomalies: Vec<usize> = Vec::new();
        let ghost idx = Seq::new(n as nat, |k: int| k as usize);
        let mut j: usize = 0;
        while j < n
            invariant
                s == timings@,
                n == s.len(),
                n >= 2,
                j <= n,
                drifts_in_range(s),
                avg == average_drift(s),
                idx == Seq::new(n as nat, |k: int| k as usize),
                anomalies@ == idx.take(j as int).filter(|k: usize| is_drift_anomaly(s, k as int)),
            decreases n - j,
        {
            assert(idx.take(j + 1).drop_last() =~= idx.take(j as int));
            assert(idx.take(j + 1).last() == j);
            assert(i64::MIN < s[j as int].drift - average_drift(s) <= i64::MAX);
            let d: i64 = timings[j].drift - avg;
            let deviation: i64 = if d < 0 { -d } else { d };
            if deviation > avg * 2 {
                anomalies.push(j);
            }
            proof {
                reveal(Seq::filter);
            }
            j = j + 1;
        }
        assert(idx.take(n as int) =~= idx);
        anomalies
    }

    /// Shifts the time stamps so that the smallest becomes zero; drifts
    /// stay.
    pub fn normalize_timestamps(timings: &mut [TimingSample])
        ensures
            final(timings)@.len() == old(timings)@.len(),
            old(timings)@.len() > 0 ==> forall|i: int| 0 <= i < old(timings)@.len() ==> {
                &&& #[trigger] final(timings)@[i].timestamp == old(timings)@[i].timestamp - min_timestamp(old(timings)@)
                &&& final(timings)@[i].drift == old(timings)@[i].drift
            },
            old(timings)@.len() == 0 ==> final(timings)@ == old(timings)@,
    {
        if timings.len() == 0 {
            return;
        }
        let ghost s = timings@;
        let n: usize = timings.len();
        let mut min: u64 = timings[0].timestamp;
        let mut i: usize = 1;
        assert(s.take(1).len() == 1);
        while i < n
            invariant
                s == timings@,
                n == s.len(),
                1 <= i <= n,
                min == min_timestamp(s.take(i as int)),
            decreases n - i,
        {
            assert(s.take(i + 1).drop_last() =~= s.take(i as int));
            if timings[i].timestamp < min {
                min = timings[i].timestamp;
            }
            i = i + 1;
        }
        assert(s.take(n as int) =~= s);
        proof { lemma_min_timestamp(s); }
        let mut j: usize = 0;
        while j < n
            invariant
                n == s.len(),
                timings@.len() == n,
                j <= n,
                min == min_timestamp(s),
                forall|k: int| 0 <= k < s.len() ==> min <= #[trigger] s[k].timestamp,
                forall|k: int| 0 <= k < j ==> #[trigger] timings@[k].timestamp == s[k].timestamp - min
                    && timings@[k].drift == s[k].drift,
                forall|k: int| j <= k < n ==> #[trigger] timings@[k] == s[k],
            decreases n - j,
        {
            let t: TimingSample = timings[j];
            timings[j] = TimingSample { timestamp: t.timestamp - min, drift: t.drift };
            j = j + 1;
        }
    }
}

} // verus!
