use embedded_hal_compat::markers::{ForwardInputPin, ForwardIoPin, ForwardOutputPin};
use embedded_hal_compat::{
    forward_result, nb_result, Forward, ForwardCompat, ForwardError, Reverse, ReverseCompat,
};

#[derive(Debug, Clone, PartialEq)]
enum PinError {
    Stuck,
}

/// A pin that answers as a `0.2` pin would.
struct Pin {
    high: bool,
}

impl Pin {
    fn set_high(&mut self) -> Result<(), PinError> {
        self.high = true;
        Ok(())
    }

    fn is_high(&self) -> Result<bool, PinError> {
        Ok(self.high)
    }
}

#[test]
fn io_pin_forward() {
    let periph_0_2 = Pin { high: false };
    let mut periph_1_0: Forward<_, ForwardIoPin> = periph_0_2.forward();
    assert!(forward_result(periph_1_0.inner_mut().set_high()).is_ok());
    assert!(forward_result(periph_1_0.inner().is_high()).unwrap());
}

#[test]
fn digital_forward_input_pin_forward() {
    let periph_0_2 = Pin { high: true };
    let periph_1_0: Forward<_, ForwardInputPin> = periph_0_2.forward();
    assert!(forward_result(periph_1_0.inner().is_high()).unwrap());
}

#[test]
fn output_pin_forward() {
    let periph_0_2 = Pin { high: false };
    let mut periph_1_0: Forward<_, ForwardOutputPin> = periph_0_2.forward();
    assert!(forward_result(periph_1_0.inner_mut().set_high()).is_ok());
    assert!(periph_1_0.unwrap().high);
}

#[test]
fn forwarded_pin_reads_what_the_pin_reads() {
    for level in [false, true] {
        let pin: Forward<Pin, ForwardIoPin> = Forward::new(Pin { high: level });
        assert_eq!(forward_result(pin.inner().is_high()), Ok(level));
    }
}

#[test]
fn forward_container_hands_back_its_value() {
    let mut f: Forward<u32> = 7u32.forward();
    assert_eq!(*f.inner(), 7);
    *f.inner_mut() = 9;
    assert_eq!(*f.inner(), 9);
    assert_eq!(f.unwrap(), 9);
    let g: Forward<&str> = Forward::new("pin");
    assert_eq!(g.unwrap(), "pin");
}

#[test]
fn reverse_container_hands_back_its_value() {
    let mut r: Reverse<u32> = 7u32.reverse();
    assert_eq!(*r.inner(), 7);
    *r.inner_mut() += 1;
    assert_eq!(*r.inner(), 8);
    assert_eq!(r.unwrap(), 8);
    let s = Reverse::new(vec![1u8, 2]);
    assert_eq!(s.unwrap(), vec![1, 2]);
}

#[test]
fn forwarded_error_is_wrapped_and_success_kept() {
    let ok: Result<u8, PinError> = Ok(3);
    assert_eq!(forward_result(ok), Ok(3));
    let err: Result<u8, PinError> = Err(PinError::Stuck);
    assert_eq!(forward_result(err), Err(ForwardError(PinError::Stuck)));
}

#[test]
fn forward_error_is_other_and_keeps_its_error() {
    let e = ForwardError(PinError::Stuck);
    assert_eq!(
        embedded_hal::digital::Error::kind(&e),
        embedded_hal::digital::ErrorKind::Other
    );
    assert_eq!(
        embedded_hal::spi::Error::kind(&e),
        embedded_hal::spi::ErrorKind::Other
    );
    assert_eq!(
        embedded_hal::i2c::Error::kind(&e),
        embedded_hal::i2c::ErrorKind::Other
    );
    assert_eq!(embedded_io::Error::kind(&e), embedded_io::ErrorKind::Other);
    assert_eq!(e.0, PinError::Stuck);
}

#[test]
fn blocking_result_never_would_block() {
    let ok: Result<u8, PinError> = Ok(0);
    assert_eq!(nb_result(ok), Ok(0));
    let err: Result<(), PinError> = Err(PinError::Stuck);
    assert_eq!(nb_result(err), Err(nb::Error::Other(PinError::Stuck)));
}
