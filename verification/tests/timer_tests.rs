use periph::timer::Timer;

#[test]
fn delay_zero_returns_immediately() {
    let mut t = Timer::new();
    t.delay_ms(0);
    assert_eq!(t.elapsed_ms(), 0);
}

#[test]
fn delay_blocks_exact_ticks() {
    let mut t = Timer::new();
    t.delay_ms(5);
    assert_eq!(t.elapsed_ms(), 5);
    t.delay_ms(50);
    assert_eq!(t.elapsed_ms(), 55);
}

#[test]
fn stale_flag_skips_wait() {
    let mut t = Timer::new();
    t.start(3);
    t.poll();
    assert_eq!(t.elapsed_ms(), 3);
    // The flag was never acknowledged: the next wait ends at once.
    t.start(4);
    t.poll();
    assert_eq!(t.elapsed_ms(), 3);
    t.acknowledge();
    t.delay_ms(2);
    assert_eq!(t.elapsed_ms(), 5);
}

#[test]
fn acknowledged_delays_accumulate() {
    let mut t = Timer::new();
    t.delay_ms(100);
    t.delay_ms(50);
    assert_eq!(t.elapsed_ms(), 150);
}
