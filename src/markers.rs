//! Markers that choose how a forwarded pin is offered: as an input, as an
//! output, or as both. They carry no data.
use vstd::prelude::*;

verus! {

/// Marker for input only pins.
pub struct ForwardInputPin;

/// Marker for output only pins.
pub struct ForwardOutputPin;

/// Marker for input-output pins.
pub struct ForwardIoPin;

} // verus!
