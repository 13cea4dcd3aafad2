use periph::PinOperationError;
use periph::gpio::GpioPort;

#[test]
fn pins_start_low() {
    let mut port = GpioPort::new();
    assert_eq!(port.read_odr(), 0);
}

#[test]
fn turn_on_sets_exactly_one_pin() {
    let mut port = GpioPort::new();
    port.turn_on(9).unwrap();
    assert_eq!(port.read_odr(), 1 << 9);
}

#[test]
fn set_reset_sequence() {
    let mut port = GpioPort::new();
    port.turn_on(9).unwrap();
    port.turn_on(11).unwrap();
    assert_eq!(port.read_odr(), (1 << 9) | (1 << 11));
    port.turn_off(9).unwrap();
    assert_eq!(port.read_odr(), 1 << 11);
    port.turn_off(11).unwrap();
    assert_eq!(port.read_odr(), 0);
}

#[test]
fn last_call_wins_per_pin() {
    let mut port = GpioPort::new();
    port.turn_on(3).unwrap();
    port.turn_off(3).unwrap();
    port.turn_on(3).unwrap();
    assert_eq!(port.read_odr() & (1 << 3), 1 << 3);
    port.turn_off(3).unwrap();
    assert_eq!(port.read_odr() & (1 << 3), 0);
}

#[test]
fn pins_are_independent() {
    let mut port = GpioPort::new();
    port.turn_on(2).unwrap();
    port.turn_on(7).unwrap();
    port.turn_off(2).unwrap();
    assert_eq!(port.read_odr(), 1 << 7);
}

#[test]
fn pin_outside_port_rejected() {
    let mut port = GpioPort::new();
    port.turn_on(5).unwrap();
    assert_eq!(port.turn_on(16), Err(PinOperationError));
    assert_eq!(port.turn_off(99), Err(PinOperationError));
    assert_eq!(port.read_odr(), 1 << 5);
}
