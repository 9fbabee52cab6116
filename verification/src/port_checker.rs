//! Picking a free TCP port: the caller probes the hundred ports from a
//! starting port upward (by trying to bind each) and hands the results over;
//! the decision of which port to use is made here.

use vstd::prelude::*;

verus! {

/// How many consecutive ports are tried.
pub open spec fn probe_window() -> int {
    100
}

/// The first port of the probed window marked available, if any:
/// `probes[i]` reports whether port `start_port + i` could be bound.
pub fn find_available_port(start_port: u16, probes: &Vec<bool>) -> (r: Option<u16>)
    requires
        start_port + probe_window() <= u16::MAX + 1,
        probes@.len() == probe_window(),
    ensures
        match r {
            Some(p) => {
                &&& start_port <= p < start_port + probe_window()
                &&& probes@[p - start_port]
                &&& forall|j: int| 0 <= j < p - start_port ==> !probes@[j]
            },
            None => forall|j: int| 0 <= j < probe_window() ==> !probes@[j],
        },
{
    let mut i: usize = 0;
    while i < 100
        invariant
            start_port + probe_window() <= u16::MAX + 1,
            probes@.len() == probe_window(),
            i <= 100,
            forall|j: int| 0 <= j < i ==> !probes@[j],
        decreases 100 - i,
    {
        if probes[i] {
            return Some(start_port + (i as u16));
        }
        i = i + 1;
    }
    None
}

} // verus!
