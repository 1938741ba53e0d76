use rcore_kernel::config::{CLOCK_FREQ, PAGE_SIZE};
use rcore_kernel::timer::{get_time_ms, get_time_us, set_next_trigger, TICKS_PER_SEC};

#[test]
fn ticks_convert_to_milliseconds() {
    assert_eq!(get_time_ms(0), 0);
    assert_eq!(get_time_ms(12_499), 0);
    assert_eq!(get_time_ms(12_500 * 7 + 3), 7);
    assert_eq!(get_time_ms(CLOCK_FREQ), 1000);
}

#[test]
fn ticks_convert_to_microseconds() {
    assert_eq!(get_time_us(25), 2);
    // the divisor CLOCK_FREQ / MICRO_PER_SEC truncates to 12
    assert_eq!(get_time_us(CLOCK_FREQ), 1_041_666);
}

#[test]
fn next_trigger_is_one_slice_later() {
    assert_eq!(set_next_trigger(10), 125_010);
    assert_eq!(set_next_trigger(0), CLOCK_FREQ / TICKS_PER_SEC);
    assert_eq!(PAGE_SIZE, 4096);
}
