//! Delays: the `1.0` delay is counted in nanoseconds, the `0.2` one in
//! microseconds.
use vstd::prelude::*;

verus! {

/// The number of whole microseconds that covers `ns` nanoseconds: the
/// nanoseconds divided by a thousand, rounded up, so that a delay is never
/// cut short.
pub fn micros_covering(ns: u32) -> (us: u32)
    ensures
        us as int == (ns as int + 999) / 1000,
{
    let whole: u32 = ns / 1000;
    if ns % 1000 == 0 {
        whole
    } else {
        whole + 1
    }
}

} // verus!
