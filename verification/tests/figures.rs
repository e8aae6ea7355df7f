use stress_tester::duration::{
    over, push_hundredths, push_tenths, push_thousandths, Duration,
};
use stress_tester::judge::format_memory;
use stress_tester::report::fmt_duration;

fn memory_as_floats_show_it(bytes: u64) -> String {
    let mb = bytes as f64 / (1024.0 * 1024.0);
    if mb >= 1.0 {
        format!("{mb:.1} MB")
    } else {
        format!("{:.0} KB", bytes as f64 / 1024.0)
    }
}

fn durations() -> Vec<(u64, u32)> {
    let mut all = vec![
        (0, 0),
        (0, 1),
        (0, 999_999_999),
        (0, 500_000_000),
        (0, 499_999_999),
        (0, 500_000),
        (0, 1_500_000),
        (0, 2_500_000),
        (1, 0),
        (1, 5_000_000),
        (1, 15_000_000),
        (1, 125_000_000),
        (2, 675_000_000),
        (59, 999_500_000),
        (86_400, 250_000_000),
        (1 << 31, 999_999_999),
        ((1 << 53) - 1, 999_999_999),
        (1 << 53, 1),
        ((1 << 53) + 1, 500_000_000),
        (u64::MAX, 999_999_999),
        (u64::MAX, 0),
        (u64::MAX - 1023, 0),
    ];
    let mut state: u64 = 5;
    for i in 0..20_000u64 {
        state = state.wrapping_mul(6364136223846793005).wrapping_add(1442695040888963407);
        let nanos = ((state >> 20) % 1_000_000_000) as u32;
        let secs = (state >> 33) >> (i % 31);
        all.push((secs, nanos));
        all.push((secs, nanos / 1_000_000 * 1_000_000 + 500_000));
        all.push((secs << 20, nanos / 50_000_000 * 50_000_000));
        all.push((state >> (i % 64), nanos));
    }
    all
}

#[test]
fn seconds_are_written_as_floats_write_them() {
    for (secs, nanos) in durations() {
        let d = Duration::new(secs, nanos);
        let float = std::time::Duration::new(secs, nanos).as_secs_f64();
        let mut tenths = String::new();
        push_tenths(&mut tenths, d);
        assert_eq!(tenths, format!("{float:.1}"), "{secs} {nanos}");
        let mut hundredths = String::new();
        push_hundredths(&mut hundredths, d);
        assert_eq!(hundredths, format!("{float:.2}"), "{secs} {nanos}");
        let mut thousandths = String::new();
        push_thousandths(&mut thousandths, d);
        assert_eq!(thousandths, format!("{float:.3}"), "{secs} {nanos}");
    }
}

#[test]
fn durations_are_shown_in_the_unit_that_suits_them() {
    for (secs, nanos) in durations() {
        let std = std::time::Duration::new(secs, nanos);
        let float = std.as_secs_f64();
        let wanted = if float < 1.0 {
            format!("{} ms", std.as_millis())
        } else {
            format!("{float:.2} s")
        };
        assert_eq!(fmt_duration(Duration::new(secs, nanos)), wanted);
    }
    assert_eq!(fmt_duration(Duration::new(0, 3_999_999)), "3 ms");
    assert_eq!(fmt_duration(Duration::new(1, 0)), "1.00 s");
    assert_eq!(fmt_duration(Duration::new(12, 345_000_000)), "12.35 s");
}

#[test]
fn memory_is_written_as_floats_write_it() {
    let mut all: Vec<u64> = (0..5000).collect();
    all.extend([1 << 20, (1 << 20) - 1, (1 << 20) + 1, 512 << 20, u64::MAX, u64::MAX - 1024]);
    all.extend([1536, 2560, 512, 511, 513, 1048064, 1048063, 1101005, 1101004, 1101003]);
    let mut state: u64 = 1;
    for i in 0..60_000u64 {
        state = state.wrapping_mul(6364136223846793005).wrapping_add(1442695040888963407);
        all.push(state >> (i % 64));
        all.push((state >> (i % 40)) / 52_428 * 52_428);
        all.push((state >> (i % 50)) & !0x3ff | 0x200);
    }
    for bytes in all {
        assert_eq!(format_memory(bytes), memory_as_floats_show_it(bytes), "{bytes}");
    }
    assert_eq!(format_memory(512 << 20), "512.0 MB");
    assert_eq!(format_memory(0), "0 KB");
    assert_eq!(format_memory(1023 * 1024), "1023 KB");
}

#[test]
fn over_goes_by_milliseconds() {
    let limit = Duration::from_millis(500);
    assert!(!over(Duration::new(0, 500_400_000), limit));
    assert!(!over(Duration::new(0, 500_999_999), limit));
    assert!(over(Duration::new(0, 501_000_000), limit));
    assert!(!over(Duration::max(), Duration::max()));
}

#[test]
fn printed_comparisons_are_true() {
    for ms in [1u64, 2, 7, 333, 500, 999, 1000, 1001, 60_000, 123_456_789] {
        for beyond in [0u32, 1, 400_000, 500_000, 600_000, 999_999] {
            let limit = Duration::from_millis(ms).plus(Duration::new(0, beyond));
            let mut b = String::new();
            push_thousandths(&mut b, limit.to_millis());
            assert_eq!(b, format!("{}.{:03}", ms / 1000, ms % 1000));
            for extra in [1_000_000u32, 1_000_001, 1_400_000, 1_500_000, 1_999_999] {
                let spent = Duration::from_millis(ms).plus(Duration::new(0, extra));
                assert!(over(spent, limit));
                let mut a = String::new();
                push_thousandths(&mut a, spent);
                assert!(a.parse::<f64>().unwrap() > b.parse::<f64>().unwrap(), "{a} > {b}");
            }
        }
    }
}

#[test]
fn durations_are_added_up_to_the_longest() {
    let a = Duration::new(u64::MAX, 999_999_999);
    assert!(a.plus(Duration::new(0, 1)).reaches(Duration::max()));
    assert_eq!(Duration::new(1, 999_999_999).plus(Duration::new(0, 1)).as_secs(), 2);
    assert_eq!(Duration::new(1, 999_999_999).plus(Duration::new(0, 2)).subsec_nanos(), 1);
    assert_eq!(Duration::from_millis(1_234).as_millis(), 1_234);
    assert_eq!(Duration::zero().as_millis(), 0);
}
