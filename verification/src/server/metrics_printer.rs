//! When the server prints its counters.
use vstd::prelude::*;

verus! {

/// True when the counters are to be printed: nothing has been printed yet,
/// or some counter differs from the values printed last.
pub fn metrics_changed(previous: Option<&[u64]>, current: &[u64]) -> (changed: bool)
    ensures
        changed == match previous {
            None => true,
            Some(p) => p@ != current@,
        },
{
    match previous {
        None => true,
        Some(p) => {
            if p.len() != current.len() {
                assert(p@.len() != current@.len());
                return true;
            }
            let mut i: usize = 0;
            while i < p.len()
                invariant
                    previous == Some(p),
                    p@.len() == current@.len(),
                    i <= p@.len(),
                    forall|j: int| 0 <= j < i ==> p@[j] == current@[j],
                decreases p@.len() - i,
            {
                if p[i] != current[i] {
                    assert(p@[i as int] != current@[i as int]);
                    return true;
                }
                i = i + 1;
            }
            assert(p@ =~= current@);
            false
        },
    }
}

} // verus!
