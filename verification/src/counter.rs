//! The transfer counter: the admission gate that bounds how many
//! requests one session serves.
//!
//! The counter starts at a positive request budget and is decremented
//! unconditionally by every `admit_one` call, even once exhausted.  A call is
//! admitted exactly when the pre-decrement value is at least one, and the
//! exhaustion signal is reported exactly on the call that takes the value
//! from one to zero.

use vstd::prelude::*;

verus! {

/// A pre-decrement value admits the request that observes it.
pub open spec fn admits(remaining: int) -> bool {
    remaining >= 1
}

/// A pre-decrement value signals exhaustion: this request is the last
/// one the session serves.
pub open spec fn signals_exhaustion(remaining: int) -> bool {
    remaining == 1
}

/// Whether the call with `calls_before` predecessors, against a counter
/// initialized to `n`, is admitted.  Each predecessor took one decrement,
/// so the call observes `n - calls_before`.
pub open spec fn admitted_after(n: int, calls_before: int) -> bool {
    admits(n - calls_before)
}

/// Whether the call with `calls_before` predecessors observes the
/// exhaustion signal.
pub open spec fn exhausts_after(n: int, calls_before: int) -> bool {
    signals_exhaustion(n - calls_before)
}

/// The counter value once `calls` admission calls have run, starting from
/// `n`: one decrement per call, none lost.
pub open spec fn remaining_after(n: int, calls: int) -> int {
    n - calls
}

/// How many of the first `calls` admission calls were admitted.
pub open spec fn admissions_in(n: int, calls: int) -> int
    decreases calls,
{
    if calls <= 0 {
        0
    } else {
        admissions_in(n, calls - 1) + if admitted_after(n, calls - 1) {
            1int
        } else {
            0int
        }
    }
}

/// How many of the first `calls` admission calls observed the exhaustion
/// signal.
pub open spec fn exhaustion_signals_in(n: int, calls: int) -> int
    decreases calls,
{
    if calls <= 0 {
        0
    } else {
        exhaustion_signals_in(n, calls - 1) + if exhausts_after(n, calls - 1) {
            1int
        } else {
            0int
        }
    }
}

/// The admission gate of one session: a signed counter, decremented by
/// every call, shared by every request the session handles.
pub struct Counter {
    remaining: i64,
}

impl Counter {
    /// The current counter value: the number of requests still to be
    /// admitted, negative once calls keep arriving past exhaustion.
    pub closed spec fn spec_remaining(self) -> int {
        self.remaining as int
    }

    /// A fresh counter for a session meant to serve `n` requests.
    pub fn new(n: u64) -> (c: Counter)
        requires
            1 <= n <= i64::MAX as u64,
        ensures
            c.spec_remaining() == n as int,
    {
        Counter { remaining: n as i64 }
    }

    /// Decrement the counter and report `(admitted, was_last)` for this
    /// call: admitted when the budget had anything left, and the
    /// exhaustion signal exactly on the call that moves the value from
    /// one to zero.  The decrement happens on every call, admitted or
    /// not.
    pub fn admit_one(&mut self) -> (r: (bool, bool))
        requires
            old(self).spec_remaining() > i64::MIN as int,
        ensures
            final(self).spec_remaining() == old(self).spec_remaining() - 1,
            r.0 <==> admits(old(self).spec_remaining()),
            r.1 <==> signals_exhaustion(old(self).spec_remaining()),
    {
        let previous = self.remaining;
        self.remaining = self.remaining - 1;
        (previous >= 1, previous == 1)
    }

    /// The counter value, for callers that report or test it.
    pub fn remaining(&self) -> (r: i64)
        ensures
            r as int == self.spec_remaining(),
    {
        self.remaining
    }
}

/// A session configured to serve `n` requests admits exactly the calls
/// with fewer than `n` predecessors, and the exhaustion signal falls
/// exactly on the call with `n - 1` predecessors — so it is observed at
/// most once over any run, and any later call is refused.
pub proof fn lemma_bounded_admission(n: int, calls_before: int)
    requires
        n >= 1,
        calls_before >= 0,
    ensures
        admitted_after(n, calls_before) <==> calls_before < n,
        exhausts_after(n, calls_before) <==> calls_before == n - 1,
{
}

/// The exhaustion signal is observed by at most one call in a session:
/// two calls that both observe it have the same position.
pub proof fn lemma_single_exhaustion(n: int, j: int, k: int)
    requires
        exhausts_after(n, j),
        exhausts_after(n, k),
    ensures
        j == k,
{
}

/// Over the first `calls` admission calls of a session bounded by `n`, the
/// number admitted is `min(calls, n)` and the exhaustion signal has been
/// observed once exactly when at least `n` calls have run.
pub proof fn lemma_admission_counts(n: int, calls: int)
    requires
        n >= 1,
        calls >= 0,
    ensures
        admissions_in(n, calls) == if calls <= n {
            calls
        } else {
            n
        },
        exhaustion_signals_in(n, calls) == if calls < n {
            0int
        } else {
            1int
        },
    decreases calls,
{
    if calls > 0 {
        lemma_admission_counts(n, calls - 1);
    }
}

/// `n` admission calls against a counter initialized to `n` drive it exactly
/// to zero — the decrements sum to `n`, none lost — grant every one of
/// the `n` calls, and produce the exhaustion signal exactly once,
/// whatever the order the callers arrived in: each call's outcome
/// depends only on how many decrements preceded it.
pub proof fn lemma_full_consumption(n: int)
    requires
        n >= 1,
    ensures
        remaining_after(n, n) == 0,
        admissions_in(n, n) == n,
        exhaustion_signals_in(n, n) == 1,
{
    lemma_admission_counts(n, n);
}

} // verus!
