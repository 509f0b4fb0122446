//! The request tally: a monotone counter that starts at zero and hands
//! out 1, 2, 3, ... — one total per handled request. The boundary that
//! serves requests concurrently guards a single counter with its own
//! synchronization and calls `next` once per request.

use vstd::prelude::*;

verus! {

/// The process-wide request tally.
pub struct RequestCounter {
    count: u64,
}

impl View for RequestCounter {
    type V = nat;

    /// The number of requests counted so far.
    closed spec fn view(&self) -> nat {
        self.count as nat
    }
}

impl RequestCounter {
    /// A fresh tally, starting at zero.
    pub fn new() -> (c: Self)
        ensures
            c@ == 0,
    {
        RequestCounter { count: 0 }
    }

    /// The current total, without counting a request.
    pub fn total(&self) -> (r: u64)
        ensures
            r as nat == self@,
    {
        self.count
    }

    /// Count one more request and return the new total.
    pub fn next(&mut self) -> (r: u64)
        requires
            old(self)@ < u64::MAX,
        ensures
            final(self)@ == old(self)@ + 1,
            r == final(self)@,
    {
        self.count = self.count + 1;
        self.count
    }
}

/// Law: when each handled request sees a total one higher than the one
/// before — as `RequestCounter::next` guarantees from a fresh counter —
/// the totals of n requests are exactly 1 through n: pairwise distinct,
/// with every value in that range reached and none outside it.
pub proof fn lemma_tally_values(totals: Seq<nat>)
    requires
        forall|i: int| 0 <= i < totals.len() ==> totals[i] == i + 1,
    ensures
        forall|i: int, j: int| 0 <= i < j < totals.len() ==> totals[i] != totals[j],
        forall|v: nat| 1 <= v <= totals.len() ==> totals.contains(v),
        forall|i: int| 0 <= i < totals.len() ==> 1 <= #[trigger] totals[i] && totals[i]
            <= totals.len(),
{
    assert forall|v: nat| 1 <= v <= totals.len() implies totals.contains(v) by {
        assert(totals[v - 1] == v);
    }
}

} // verus!
