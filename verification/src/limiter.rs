//! Throttling of outbound requests: a single shared last-permitted time,
//! read and updated under exclusive access. A caller hands in the clock
//! reading and learns how long it must sleep before its request counts as
//! permitted; the sleeping itself is the caller's concern.

use vstd::prelude::*;

verus! {

/// When a request asking at `now` is permitted, given the previously
/// permitted time: immediately once `spacing` has elapsed, else exactly
/// when it has.
pub open spec fn permit_time(last: Option<int>, now: int, spacing: int) -> int {
    match last {
        None => now,
        Some(l) => if now - l >= spacing {
            now
        } else {
            l + spacing
        },
    }
}

pub open spec fn opt_int(o: Option<i64>) -> Option<int> {
    match o {
        Some(v) => Some(v as int),
        None => None,
    }
}

/// Serializes and throttles outbound requests.
pub struct RateLimiter {
    pub last_permitted: Option<i64>,
}

impl RateLimiter {
    pub open spec fn wf(self) -> bool {
        match self.last_permitted {
            Some(l) => l >= 0,
            None => true,
        }
    }

    /// A limiter that has permitted nothing yet.
    pub fn new() -> (r: RateLimiter)
        ensures
            r.last_permitted is None,
            r.wf(),
    {
        RateLimiter { last_permitted: None }
    }

    /// Decides when a request asking at `now` is permitted: hands back
    /// the wait still owed and records the permitted time, so that no two
    /// permitted requests stand closer than `spacing`.
    pub fn permit(&mut self, now: i64, spacing: i64) -> (wait: i64)
        requires
            old(self).wf(),
            now >= 0,
            spacing >= 0,
            now + spacing <= i64::MAX,
            old(self).last_permitted is Some ==> old(self).last_permitted->Some_0 + spacing
                <= i64::MAX,
        ensures
            final(self).wf(),
            wait == permit_time(opt_int(old(self).last_permitted), now as int, spacing as int)
                - now,
            opt_int(final(self).last_permitted) == Some(
                permit_time(opt_int(old(self).last_permitted), now as int, spacing as int),
            ),
            permit_time(opt_int(old(self).last_permitted), now as int, spacing as int) >= now,
            old(self).last_permitted is Some ==> permit_time(
                opt_int(old(self).last_permitted),
                now as int,
                spacing as int,
            ) >= old(self).last_permitted->Some_0 + spacing,
    {
        let permitted: i64 = match self.last_permitted {
            None => now,
            Some(l) => {
                if now - l >= spacing {
                    now
                } else {
                    l + spacing
                }
            },
        };
        let wait = permitted - now;
        self.last_permitted = Some(permitted);
        wait
    }
}

/// The permitted times of a run of sequential requests asking at `nows`,
/// starting from `last`.
pub open spec fn permit_times(last: Option<int>, nows: Seq<int>, spacing: int) -> Seq<int>
    decreases nows.len(),
{
    if nows.len() == 0 {
        Seq::empty()
    } else {
        let p = permit_time(last, nows[0], spacing);
        seq![p] + permit_times(Some(p), nows.drop_first(), spacing)
    }
}

pub proof fn lemma_permit_times_len(last: Option<int>, nows: Seq<int>, spacing: int)
    ensures
        permit_times(last, nows, spacing).len() == nows.len(),
    decreases nows.len(),
{
    if nows.len() > 0 {
        let p = permit_time(last, nows[0], spacing);
        lemma_permit_times_len(Some(p), nows.drop_first(), spacing);
    }
}

/// For any run of sequential requests, the gap between successive
/// permitted times is at least `spacing`: contention through the
/// exclusive section itself enforces the spacing.
pub proof fn lemma_permit_spacing(last: Option<int>, nows: Seq<int>, spacing: int, k: int)
    requires
        spacing >= 0,
        0 <= k < nows.len() - 1,
    ensures
        permit_times(last, nows, spacing).len() == nows.len(),
        permit_times(last, nows, spacing)[k + 1] - permit_times(last, nows, spacing)[k] >= spacing,
    decreases nows.len(),
{
    lemma_permit_times_len(last, nows, spacing);
    let p = permit_time(last, nows[0], spacing);
    let rest = permit_times(Some(p), nows.drop_first(), spacing);
    lemma_permit_times_len(Some(p), nows.drop_first(), spacing);
    if k == 0 {
        assert(rest[0] == permit_time(Some(p), nows.drop_first()[0], spacing));
    } else {
        lemma_permit_spacing(Some(p), nows.drop_first(), spacing, k - 1);
    }
}

} // verus!
