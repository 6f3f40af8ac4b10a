use eintopf_sweep::decimal::{parse_u32, render_decimal};
use eintopf_sweep::sweep::{fleet_size, Sweep, SweepStep};

fn factors(words: &[&str]) -> Vec<String> {
    words.iter().map(|w| w.to_string()).collect()
}

#[test]
fn malformed_factor_is_skipped_and_sweep_goes_on() {
    let mut s = Sweep::new(1, factors(&["1", "x", "2"]));
    assert_eq!(s.next_step(), SweepStep::Run { fleet_size: 1 });
    s.end_iteration(false);
    assert_eq!(s.next_step(), SweepStep::Skip { position: 1 });
    s.end_iteration(false);
    assert_eq!(s.next_step(), SweepStep::Run { fleet_size: 2 });
    s.end_iteration(false);
    assert_eq!(s.next_step(), SweepStep::Stop);
}

#[test]
fn cancellation_stops_after_current_iteration() {
    let mut s = Sweep::new(1, factors(&["1", "2", "3"]));
    assert_eq!(s.next_step(), SweepStep::Run { fleet_size: 1 });
    s.end_iteration(false);
    assert_eq!(s.next_step(), SweepStep::Run { fleet_size: 2 });
    s.end_iteration(true);
    assert_eq!(s.next_step(), SweepStep::Stop);
    s.end_iteration(false);
    assert_eq!(s.next_step(), SweepStep::Stop);
}

#[test]
fn base_count_multiplies_factor() {
    let mut s = Sweep::new(4, factors(&["3", "0", "+2"]));
    assert_eq!(s.next_step(), SweepStep::Run { fleet_size: 12 });
    assert_eq!(s.next_step(), SweepStep::Skip { position: 1 });
    assert_eq!(s.next_step(), SweepStep::Run { fleet_size: 8 });
    assert_eq!(s.next_step(), SweepStep::Stop);
}

#[test]
fn empty_sweep_stops_at_once() {
    let mut s = Sweep::new(1, Vec::new());
    assert_eq!(s.next_step(), SweepStep::Stop);
}

#[test]
fn fleet_size_rejects_zero_overflow_and_text() {
    assert_eq!(fleet_size(3, "2"), Some(6));
    assert_eq!(fleet_size(1, "0"), None);
    assert_eq!(fleet_size(2, "x"), None);
    assert_eq!(fleet_size(2, "4294967295"), None);
    assert_eq!(fleet_size(1, "4294967295"), Some(u32::MAX));
}

#[test]
fn parse_reads_unsigned_decimal() {
    assert_eq!(parse_u32("42"), Some(42));
    assert_eq!(parse_u32("+7"), Some(7));
    assert_eq!(parse_u32("007"), Some(7));
    assert_eq!(parse_u32("4294967295"), Some(u32::MAX));
    assert_eq!(parse_u32("4294967296"), None);
    assert_eq!(parse_u32("99999999999999999999"), None);
    assert_eq!(parse_u32(""), None);
    assert_eq!(parse_u32("+"), None);
    assert_eq!(parse_u32("-1"), None);
    assert_eq!(parse_u32(" 1"), None);
    assert_eq!(parse_u32("1x"), None);
}

#[test]
fn parse_agrees_with_std_on_samples() {
    for s in ["0", "12", "+3", "-0", "a", "4294967295", "4294967296", "++1", ""] {
        assert_eq!(parse_u32(s), s.parse::<u32>().ok());
    }
}

#[test]
fn decimal_rendering() {
    assert_eq!(render_decimal(0), "0");
    assert_eq!(render_decimal(7), "7");
    assert_eq!(render_decimal(1234), "1234");
    assert_eq!(render_decimal(u64::MAX), u64::MAX.to_string());
}
