//! Client bookkeeping.
use vstd::prelude::*;

verus! {

/// Connection statistics of a client.
#[derive(Clone, Copy, Debug, PartialEq, Eq, Structural)]
pub struct ConnectionStats {
    pub connection_count: usize,
}

impl ConnectionStats {
    /// True when the periodic report should be printed: the count changed
    /// since the last report, or nothing has been reported yet.
    pub fn should_report(&self, previous_count: usize, printed_once: bool) -> (report: bool)
        ensures
            report == (previous_count != self.connection_count || !printed_once),
    {
        previous_count != self.connection_count || !printed_once
    }
}

} // verus!
