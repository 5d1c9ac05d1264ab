use costing::timeline::{years_between, Timeline, YearSlot};

fn timeline() -> Timeline {
    Timeline {
        construction_start: 2025,
        construction_finish: 2026,
        operation_start: 2027,
        operation_finish: 2029,
        decommissioning_start: 2030,
        decommissioning_finish: 2030,
    }
}

#[test]
fn ranges_follow_the_fields() {
    let t = timeline();
    assert_eq!(t.start(), 2025);
    assert_eq!(t.end(), 2030);
    assert_eq!(t.range(), 2025..=2030);
    assert_eq!(t.construction_range(), 2025..=2026);
    assert_eq!(t.operation_range(), 2027..=2029);
    assert_eq!(t.decommissioning_range(), 2030..=2030);
    assert_eq!(t.construction_years(), 2);
    assert_eq!(t.decommissioning_years(), 1);
}

#[test]
fn years_between_counts_inclusively() {
    assert_eq!(years_between(2025, 2025), 1);
    assert_eq!(years_between(2025, 2034), 10);
    assert_eq!(years_between(2026, 2025), 0);
    assert_eq!(years_between(i16::MIN, i16::MAX), 65536);
}

#[test]
fn schedule_flags_each_year() {
    let s = timeline().schedule();
    assert_eq!(s.len(), 6);
    assert_eq!(
        s[0],
        YearSlot { year: 2025, offset: 0, construction: true, operation: false, decommissioning: false }
    );
    assert_eq!(
        s[2],
        YearSlot { year: 2027, offset: 2, construction: false, operation: true, decommissioning: false }
    );
    assert_eq!(
        s[5],
        YearSlot { year: 2030, offset: 5, construction: false, operation: false, decommissioning: true }
    );
}

#[test]
fn capital_shares_sum_back_to_the_total() {
    let t = timeline();
    let total = 1000.0_f64;
    let share = total / t.construction_years() as f64;
    let spread: f64 = t.schedule().iter().filter(|s| s.construction).map(|_| share).sum();
    assert!((spread - total).abs() < 1e-9);
}

#[test]
fn discount_factor_starts_at_one_and_falls() {
    let rate = 0.1_f64;
    let factors: Vec<f64> = timeline()
        .schedule()
        .iter()
        .map(|s| 1.0 / (1.0 + rate).powi(s.offset as i32))
        .collect();
    assert_eq!(factors[0], 1.0);
    for w in factors.windows(2) {
        assert!(w[1] < w[0]);
    }
}

#[test]
fn overlapping_periods_are_used_as_given() {
    let t = Timeline {
        construction_start: 2025,
        construction_finish: 2027,
        operation_start: 2026,
        operation_finish: 2026,
        decommissioning_start: 2027,
        decommissioning_finish: 2027,
    };
    let s = t.schedule();
    assert_eq!(s.len(), 3);
    assert!(s[1].construction && s[1].operation);
    assert!(s[2].construction && s[2].decommissioning);
}

#[test]
fn inverted_timeline_has_no_years() {
    let t = Timeline {
        construction_start: 2030,
        construction_finish: 2030,
        operation_start: 2031,
        operation_finish: 2031,
        decommissioning_start: 2020,
        decommissioning_finish: 2020,
    };
    assert!(t.schedule().is_empty());
}

#[test]
fn widest_timeline_is_laid_out() {
    let t = Timeline {
        construction_start: i16::MIN,
        construction_finish: i16::MIN,
        operation_start: 0,
        operation_finish: 0,
        decommissioning_start: i16::MAX,
        decommissioning_finish: i16::MAX,
    };
    let s = t.schedule();
    assert_eq!(s.len(), 65536);
    assert_eq!(s[65535].offset, 65535);
    assert!(s[65535].decommissioning);
}
