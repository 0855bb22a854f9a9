//! Counters for forwarded bytes.
use vstd::prelude::*;

verus! {

/// A counter metric.
pub trait MetricsCounter {
    /// Increment the counter by a given amount.
    fn inc_by(&mut self, amount: u64);
}

/// A counter whose value can be read back directly.
pub struct DummyCounter(u64);

impl View for DummyCounter {
    type V = u64;

    closed spec fn view(&self) -> u64 {
        self.0
    }
}

impl DummyCounter {
    /// A counter at zero.
    pub fn new() -> (counter: Self)
        ensures
            counter@ == 0,
    {
        DummyCounter(0)
    }

    /// The current value.
    pub fn get(&self) -> (value: u64)
        ensures
            value == self@,
    {
        self.0
    }
}

impl Default for DummyCounter {
    fn default() -> (counter: Self)
        ensures
            counter@ == 0,
    {
        DummyCounter(0)
    }
}

impl MetricsCounter for DummyCounter {
    /// Adds `amount`, wrapping around at `2^64` like an atomic add.
    fn inc_by(&mut self, amount: u64)
        ensures
            final(self)@ == (old(self)@ as int + amount as int) % 0x1_0000_0000_0000_0000,
    {
        self.0 = self.0.wrapping_add(amount);
    }
}

/// The value a counter that starts at `start` holds after adding each of
/// `amounts` in turn, wrapping around at `2^64` as `inc_by` does.
pub open spec fn after_increments(start: u64, amounts: Seq<u64>) -> u64
    decreases amounts.len(),
{
    if amounts.len() == 0 {
        start
    } else {
        ((after_increments(start, amounts.drop_last()) as int + amounts.last() as int)
            % 0x1_0000_0000_0000_0000) as u64
    }
}

/// The sum of `amounts`, without wrapping.
pub open spec fn total(amounts: Seq<u64>) -> int
    decreases amounts.len(),
{
    if amounts.len() == 0 {
        0
    } else {
        total(amounts.drop_last()) + amounts.last()
    }
}

/// A fresh counter, incremented by each of `amounts` in turn, reads the sum
/// of the amounts modulo `2^64`: `inc_by` wraps and never loses an amount.
pub proof fn lemma_counter_reads_wrapped_total(amounts: Seq<u64>)
    ensures
        after_increments(0, amounts) as int == total(amounts) % 0x1_0000_0000_0000_0000,
    decreases amounts.len(),
{
    if amounts.len() > 0 {
        let prefix = amounts.drop_last();
        let m: int = 0x1_0000_0000_0000_0000;
        lemma_counter_reads_wrapped_total(prefix);
        vstd::arithmetic::div_mod::lemma_add_mod_noop(total(prefix), amounts.last() as int, m);
        vstd::arithmetic::div_mod::lemma_small_mod(amounts.last() as nat, m as nat);
        vstd::arithmetic::div_mod::lemma_small_mod(after_increments(0, prefix) as nat, m as nat);
    }
}

} // verus!
