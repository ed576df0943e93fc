//! A compatibility layer between the `0.2` and the `1.0` generations of the
//! embedded hardware-abstraction traits.
//!
//! [`Forward`] wraps a value written against `0.2` for code that expects
//! `1.0`; [`Reverse`] does the opposite. Both hold the wrapped value and
//! nothing else. The one piece with logic of its own is [`spi`]: a batch of
//! SPI operations spliced onto a single in-place transfer and handed back.
pub mod delay;
mod forward;
pub mod markers;
mod reverse;
pub mod spi;

pub use forward::{
    forward_result, forwarded, lemma_error_round_trip, lemma_forward_transparent, Forward,
    ForwardCompat, ForwardError,
};
pub use reverse::{nb_result, non_blocking, Reverse, ReverseCompat};
