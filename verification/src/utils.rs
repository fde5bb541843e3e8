//! Retry policy, sync-progress arithmetic, and the decimal height parser.

use vstd::prelude::*;

verus! {

/// The capped exponential backoff policy: delays start small, double on
/// each attempt, never exceed the interval cap, and the whole operation
/// gets a fixed elapsed-time budget before the caller rotates endpoints.
#[derive(Debug, Clone, Copy, PartialEq, Eq, Structural)]
pub struct RetryPolicy {
    pub initial_interval_ms: u64,
    pub max_interval_ms: u64,
    pub max_elapsed_ms: u64,
}

impl RetryPolicy {
    /// A usable policy: a positive first delay, no larger than the cap.
    pub open spec fn wf(&self) -> bool {
        1 <= self.initial_interval_ms <= self.max_interval_ms
    }

    /// The delay after `attempt` failed attempts: the initial interval
    /// doubled `attempt` times, clamped to the cap.
    pub open spec fn spec_delay(&self, attempt: nat) -> int
        decreases attempt,
    {
        if attempt == 0 {
            self.initial_interval_ms as int
        } else {
            let doubled = 2 * self.spec_delay((attempt - 1) as nat);
            if doubled <= self.max_interval_ms {
                doubled
            } else {
                self.max_interval_ms as int
            }
        }
    }

    /// The delay before the next attempt, or `None` once the elapsed-time
    /// budget is spent and the operation must give up on this endpoint.
    pub fn next_delay(&self, attempt: u32, elapsed_ms: u64) -> (d: Option<u64>)
        requires
            self.wf(),
        ensures
            (d is Some) <==> elapsed_ms < self.max_elapsed_ms,
            d matches Some(v) ==> v == self.spec_delay(attempt as nat) && v
                <= self.max_interval_ms,
    {
        if elapsed_ms >= self.max_elapsed_ms {
            return None;
        }
        let mut d: u64 = self.initial_interval_ms;
        let mut k: u32 = 0;
        while k < attempt && d < self.max_interval_ms
            invariant
                self.wf(),
                k <= attempt,
                d == self.spec_delay(k as nat),
                d <= self.max_interval_ms,
            decreases attempt - k,
        {
            if d <= self.max_interval_ms / 2 {
                d = d * 2;
            } else {
                d = self.max_interval_ms;
            }
            k = k + 1;
        }
        proof {
            if k < attempt {
                self.lemma_delay_saturates(k as nat, attempt as nat);
            }
        }
        Some(d)
    }

    /// Once the delay reaches the cap it stays there.
    proof fn lemma_delay_saturates(&self, i: nat, j: nat)
        requires
            self.wf(),
            i <= j,
            self.spec_delay(i) == self.max_interval_ms,
        ensures
            self.spec_delay(j) == self.max_interval_ms,
        decreases j - i,
    {
        if j > i {
            self.lemma_delay_saturates(i, (j - 1) as nat);
        }
    }
}

/// The retry policy every source fetch runs under: first delay well under a
/// second, intervals capped at fifteen seconds, and a one-minute budget per
/// endpoint before rotation.
pub fn backoffset() -> (p: RetryPolicy)
    ensures
        p.wf(),
        p.initial_interval_ms == 50,
        p.max_interval_ms == 15_000,
        p.max_elapsed_ms == 60_000,
{
    RetryPolicy { initial_interval_ms: 50, max_interval_ms: 15_000, max_elapsed_ms: 60_000 }
}

/// A progress report over a batch range, ready to be formatted and logged.
#[derive(Debug, Clone, Copy, PartialEq, Eq, Structural)]
pub struct Progress {
    pub percentage: u64,
    pub files_done: u64,
    pub files_remaining: u64,
    pub millis_per_file: u128,
    pub time_remaining_millis: u128,
    pub minutes_remaining: u128,
}

/// The progress of the sync through `[range_start, range_end)` after
/// reaching `current_index`, with a time estimate from the elapsed
/// milliseconds and a heuristic slowdown of a tenth of a second per
/// remaining window.
pub fn log_progress(
    elapsed_millis: u128,
    current_index: u32,
    range_start: u32,
    range_end: u32,
    batch_request: u32,
) -> (p: Progress)
    requires
        range_end >= 1,
        batch_request >= 1,
        range_start <= current_index <= range_end,
        elapsed_millis < 0x1_0000_0000_0000_0000,
    ensures
        p.percentage == current_index * 100 / (range_end as int),
        p.files_done == 1 + (current_index - range_start) / (batch_request as int),
        p.files_remaining == 1 + (range_end - current_index) / (batch_request as int),
        p.millis_per_file == elapsed_millis as int / p.files_done as int,
        p.time_remaining_millis == p.files_remaining * p.millis_per_file + 100
            * p.files_remaining,
        p.minutes_remaining == p.time_remaining_millis as int / 60_000,
{
    let percentage = (current_index as u64) * 100 / (range_end as u64);
    let files_done = 1 + ((current_index - range_start) as u64) / (batch_request as u64);
    let files_remaining = 1 + ((range_end - current_index) as u64) / (batch_request as u64);
    let millis_per_file = elapsed_millis / (files_done as u128);
    let slowdown = 100 * (files_remaining as u128);
    proof {
        vstd::arithmetic::div_mod::lemma_div_nonincreasing(
            (range_end - current_index) as int,
            batch_request as int,
        );
        vstd::arithmetic::div_mod::lemma_div_nonincreasing(
            elapsed_millis as int,
            files_done as int,
        );
        vstd::arithmetic::mul::lemma_mul_upper_bound(
            files_remaining as int,
            0x1_0000_0000int,
            millis_per_file as int,
            0xffff_ffff_ffff_ffffint,
        );
    }
    let time_remaining_millis = (files_remaining as u128) * millis_per_file + slowdown;
    let minutes_remaining = time_remaining_millis / 60_000;
    Progress {
        percentage,
        files_done,
        files_remaining,
        millis_per_file,
        time_remaining_millis,
        minutes_remaining,
    }
}

/// Whether a byte is a decimal digit.
pub open spec fn is_digit(b: u8) -> bool {
    48 <= b <= 57
}

/// Whether every byte of the sequence is a decimal digit.
pub open spec fn all_digits(s: Seq<u8>) -> bool {
    forall|k: int| 0 <= k < s.len() ==> is_digit(#[trigger] s[k])
}

/// The value of a decimal digit string.
pub open spec fn dec_value(s: Seq<u8>) -> int
    decreases s.len(),
{
    if s.len() == 0 {
        0
    } else {
        dec_value(s.drop_last()) * 10 + (s.last() - 48)
    }
}

/// The digits of a numeral after an optional leading plus sign.
pub open spec fn strip_plus(s: Seq<u8>) -> Seq<u8> {
    if s.len() > 0 && s[0] == 43 {
        s.subrange(1, s.len() as int)
    } else {
        s
    }
}

proof fn lemma_dec_value_nonneg(s: Seq<u8>)
    requires
        all_digits(s),
    ensures
        dec_value(s) >= 0,
    decreases s.len(),
{
    if s.len() > 0 {
        assert(all_digits(s.drop_last())) by {
            assert(forall|k: int|
                0 <= k < s.len() - 1 ==> #[trigger] s.drop_last()[k] == s[k]);
        }
        lemma_dec_value_nonneg(s.drop_last());
    }
}

/// A longer digit prefix never has a smaller value.
proof fn lemma_dec_value_prefix_le(s: Seq<u8>, i: int, j: int)
    requires
        all_digits(s),
        0 <= i <= j <= s.len(),
    ensures
        dec_value(s.take(i)) <= dec_value(s.take(j)),
    decreases j - i,
{
    if i < j {
        lemma_dec_value_prefix_le(s, i, j - 1);
        assert(s.take(j).drop_last() =~= s.take(j - 1));
        assert(all_digits(s.take(j - 1))) by {
            assert(forall|k: int| 0 <= k < j - 1 ==> #[trigger] s.take(j - 1)[k] == s[k]);
        }
        lemma_dec_value_nonneg(s.take(j - 1));
    }
}

/// Parses the plain-integer text body of the tip-height endpoint: an
/// optional plus sign, then decimal digits. `None` exactly when the numeral
/// is malformed or its value does not fit in 32 bits.
#[verifier::loop_isolation(false)]
pub fn parse_u32(s: &[u8]) -> (r: Option<u32>)
    ensures
        (r is Some) <==> ({
            let d = strip_plus(s@);
            d.len() > 0 && all_digits(d) && dec_value(d) < 0x1_0000_0000
        }),
        r matches Some(v) ==> v == dec_value(strip_plus(s@)),
{
    let ghost d = strip_plus(s@);
    let offset: usize = if s.len() > 0 && s[0] == 43 {
        1
    } else {
        0
    };
    if s.len() == offset {
        return None;
    }
    let mut i: usize = offset;
    let mut v: u32 = 0;
    while i < s.len()
        invariant
            offset <= i <= s.len(),
            d.len() == s@.len() - offset,
            forall|k: int| 0 <= k < d.len() ==> d[k] == s@[k + offset],
            all_digits(d.take(i - offset)),
            v == dec_value(d.take(i - offset)),
        decreases s.len() - i,
    {
        let c = s[i];
        proof {
            assert(d.take(i + 1 - offset).drop_last() =~= d.take(i - offset));
            assert(d.take(i + 1 - offset).last() == d[i - offset]);
        }
        if c < 48 || c > 57 {
            proof {
                assert(!is_digit(d[i - offset]));
            }
            return None;
        }
        let digit = (c - 48) as u64;
        let next = (v as u64) * 10 + digit;
        if next > 0xffff_ffff {
            proof {
                assert(dec_value(d.take(i + 1 - offset)) > 0xffff_ffff);
                if all_digits(d) {
                    lemma_dec_value_prefix_le(d, i + 1 - offset, d.len() as int);
                    assert(d.take(d.len() as int) =~= d);
                }
            }
            return None;
        }
        v = next as u32;
        i = i + 1;
    }
    proof {
        assert(d.take(d.len() as int) =~= d);
    }
    Some(v)
}

} // verus!
