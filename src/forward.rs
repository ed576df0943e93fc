//! The forward adapter: a value written against the `0.2` traits, offered to
//! code that expects the `1.0` traits.
use core::marker::PhantomData;
use vstd::prelude::*;

verus! {

// The error classifications below are plain enums whose variants are all
// public and carry no data but other such enums, so each is declared with its
// variants visible: the error wrapper further down builds and states them.

/// `embedded_hal::digital::ErrorKind`: the classification of a pin error.
#[verifier::external_type_specification]
pub struct ExDigitalErrorKind(embedded_hal::digital::ErrorKind);

/// `embedded_hal::spi::ErrorKind`: the classification of an SPI error.
#[verifier::external_type_specification]
pub struct ExSpiErrorKind(embedded_hal::spi::ErrorKind);

/// `embedded_hal::i2c::ErrorKind`: the classification of an I2C error.
#[verifier::external_type_specification]
pub struct ExI2cErrorKind(embedded_hal::i2c::ErrorKind);

/// `embedded_hal::i2c::NoAcknowledgeSource`: held by one variant of the I2C
/// classification.
#[verifier::external_type_specification]
pub struct ExNoAcknowledgeSource(embedded_hal::i2c::NoAcknowledgeSource);

/// `embedded_io::ErrorKind`: the classification of a byte-stream error.
#[verifier::external_type_specification]
pub struct ExIoErrorKind(embedded_io::ErrorKind);

/// Forward compatibility container: holds one wrapped value and nothing
/// else. The marker `M` selects which pin capabilities the container offers
/// (see [`crate::markers`]).
pub struct Forward<T, M = ()> {
    inner: T,
    _marker: PhantomData<M>,
}

/// Conversion of any value into a forward compatibility container; call
/// `.forward()` on a `0.2` value to use it where `1.0` traits are expected.
pub trait ForwardCompat<M = ()>: Sized {
    /// Wraps `self`. Which `1.0` traits the container offers depends on the
    /// `0.2` traits of the wrapped value.
    fn forward(self) -> (r: Forward<Self, M>)
        ensures
            r@ == self,
    ;
}

impl<T, M> ForwardCompat<M> for T {
    fn forward(self) -> (r: Forward<T, M>) {
        Forward::new(self)
    }
}

impl<T, M> View for Forward<T, M> {
    type V = T;

    /// The wrapped value.
    closed spec fn view(&self) -> T {
        self.inner
    }
}

impl<T, M> Forward<T, M> {
    /// Creates a new compatibility container around `inner`.
    pub fn new(inner: T) -> (r: Forward<T, M>)
        ensures
            r@ == inner,
    {
        Forward { inner, _marker: PhantomData }
    }

    /// A reference to the wrapped value.
    pub fn inner(&self) -> (r: &T)
        ensures
            *r == self@,
    {
        &self.inner
    }

    /// A mutable reference to the wrapped value; what is written through it
    /// is what the container holds afterwards.
    pub fn inner_mut(&mut self) -> (r: &mut T)
        ensures
            *r == old(self)@,
            final(self)@ == *final(r),
    {
        &mut self.inner
    }

    /// Destroys the container, handing back the wrapped value.
    pub fn unwrap(self) -> (r: T)
        ensures
            r == self@,
    {
        self.inner
    }
}

/// Error of the forward adapter: the error of the wrapped `0.2` value, which
/// carries no classification, filed under the single "other" category of
/// each `1.0` error trait. The wrapped error is the public field.
#[derive(Debug, Clone, PartialEq)]
pub struct ForwardError<E>(pub E);

impl<E: core::fmt::Debug> embedded_hal::digital::Error for ForwardError<E> {
    fn kind(&self) -> (r: embedded_hal::digital::ErrorKind)
        ensures
            r == embedded_hal::digital::ErrorKind::Other,
    {
        embedded_hal::digital::ErrorKind::Other
    }
}

impl<E: core::fmt::Debug> embedded_hal::spi::Error for ForwardError<E> {
    fn kind(&self) -> (r: embedded_hal::spi::ErrorKind)
        ensures
            r == embedded_hal::spi::ErrorKind::Other,
    {
        embedded_hal::spi::ErrorKind::Other
    }
}

impl<E: core::fmt::Debug> embedded_hal::i2c::Error for ForwardError<E> {
    fn kind(&self) -> (r: embedded_hal::i2c::ErrorKind)
        ensures
            r == embedded_hal::i2c::ErrorKind::Other,
    {
        embedded_hal::i2c::ErrorKind::Other
    }
}

impl<E: core::fmt::Debug> embedded_io::Error for ForwardError<E> {
    fn kind(&self) -> (r: embedded_io::ErrorKind)
        ensures
            r == embedded_io::ErrorKind::Other,
    {
        embedded_io::ErrorKind::Other
    }
}

/// The outcome of a forwarded call: what the wrapped value returned, with
/// its error wrapped in a [`ForwardError`] and the success value unchanged.
pub open spec fn forwarded<V, E>(r: Result<V, E>) -> Result<V, ForwardError<E>> {
    match r {
        Ok(v) => Ok(v),
        Err(e) => Err(ForwardError(e)),
    }
}

/// Carries the result of a call on the wrapped value over to the `1.0`
/// side: the success value as it is, the error wrapped.
pub fn forward_result<V, E>(r: Result<V, E>) -> (out: Result<V, ForwardError<E>>)
    ensures
        out == forwarded(r),
{
    match r {
        Ok(v) => Ok(v),
        Err(e) => Err(ForwardError(e)),
    }
}

/// Wrapping an error and reading it back is lossless: the field of the
/// wrapper is the error that went in, and a wrapped failure stays a failure
/// with that same error inside.
pub proof fn lemma_error_round_trip<V, E>(e: E)
    ensures
        ForwardError(e).0 == e,
        forwarded(Err::<V, E>(e)) == Err::<V, ForwardError<E>>(ForwardError(e)),
        forwarded(Err::<V, E>(e))->Err_0.0 == e,
{
}

/// A forwarded call is transparent: it succeeds exactly when the wrapped
/// call succeeded, with the same value, and fails with the same error.
pub proof fn lemma_forward_transparent<V, E>(r: Result<V, E>)
    ensures
        forwarded(r) is Ok <==> r is Ok,
        r is Ok ==> forwarded(r)->Ok_0 == r->Ok_0,
        r is Err ==> forwarded(r)->Err_0.0 == r->Err_0,
{
}

} // verus!
