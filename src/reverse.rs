//! The reverse adapter: a value written against the `1.0` traits, offered to
//! code that expects the `0.2` traits.
use vstd::prelude::*;

verus! {

/// `nb::Error`: the error of the non-blocking `0.2` calls. Both of its
/// variants are public, so it is declared with them visible: the conversion
/// below builds them.
#[verifier::external_type_specification]
#[verifier::reject_recursive_types(E)]
pub struct ExNbError<E>(nb::Error<E>);

/// Reverse compatibility container: holds one wrapped value and nothing
/// else.
pub struct Reverse<T> {
    inner: T,
}

/// Conversion of any value into a reverse compatibility container; call
/// `.reverse()` on a `1.0` value to use it where `0.2` traits are expected.
pub trait ReverseCompat: Sized {
    /// Wraps `self`. Which `0.2` traits the container offers depends on the
    /// `1.0` traits of the wrapped value.
    fn reverse(self) -> (r: Reverse<Self>)
        ensures
            r@ == self,
    ;
}

impl<T> ReverseCompat for T {
    fn reverse(self) -> (r: Reverse<T>) {
        Reverse::new(self)
    }
}

impl<T> View for Reverse<T> {
    type V = T;

    /// The wrapped value.
    closed spec fn view(&self) -> T {
        self.inner
    }
}

impl<T> Reverse<T> {
    /// Creates a new compatibility container around `inner`.
    pub fn new(inner: T) -> (r: Reverse<T>)
        ensures
            r@ == inner,
    {
        Reverse { inner }
    }

    /// A reference to the wrapped value.
    pub fn inner(&self) -> (r: &T)
        ensures
            *r == self@,
    {
        &self.inner
    }

    /// A mutable reference to the wrapped value; what is written through it
    /// is what the container holds afterwards.
    pub fn inner_mut(&mut self) -> (r: &mut T)
        ensures
            *r == old(self)@,
            final(self)@ == *final(r),
    {
        &mut self.inner
    }

    /// Destroys the container, handing back the wrapped value.
    pub fn unwrap(self) -> (r: T)
        ensures
            r == self@,
    {
        self.inner
    }
}

/// The outcome of a blocking `1.0` call seen as a non-blocking `0.2` one:
/// the call has already run to completion, so an error is never "would
/// block" but always the wrapped value's own error.
pub open spec fn non_blocking<V, E>(r: Result<V, E>) -> nb::Result<V, E> {
    match r {
        Ok(v) => Ok(v),
        Err(e) => Err(nb::Error::Other(e)),
    }
}

/// Carries the result of a blocking call over to a non-blocking `0.2`
/// method.
pub fn nb_result<V, E>(r: Result<V, E>) -> (out: nb::Result<V, E>)
    ensures
        out == non_blocking(r),
{
    match r {
        Ok(v) => Ok(v),
        Err(e) => Err(nb::Error::Other(e)),
    }
}

} // verus!
