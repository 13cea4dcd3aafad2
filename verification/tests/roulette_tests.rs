use periph::gpio::GpioPort;
use periph::roulette_step;
use periph::timer::Timer;

#[test]
fn roulette_cycles_through_eight_pins() {
    let mut port = GpioPort::new();
    let mut timer = Timer::new();
    assert_eq!(port.read_odr(), 0);
    let mut curr: usize = 0;
    for step in 0..8u64 {
        curr = roulette_step(&mut port, &mut timer, curr, 50);
        // Exactly one pin is on after each full step, and each step costs
        // two bounded delays.
        assert_eq!(port.read_odr(), 1 << curr);
        assert_eq!(timer.elapsed_ms(), (step + 1) * 100);
    }
    assert_eq!(curr, 0);
    assert_eq!(timer.elapsed_ms(), 800);
}

#[test]
fn roulette_wraps_to_first_pin() {
    let mut port = GpioPort::new();
    let mut timer = Timer::new();
    let next = roulette_step(&mut port, &mut timer, 7, 1);
    assert_eq!(next, 0);
    assert_eq!(port.read_odr(), 1);
}
