use stress_tester::duration::Duration;
use stress_tester::path::Platform;
use stress_tester::runner::{
    command_line, cpu_time, decode_status, process_cpu_time, ru_cpu_time, ru_maxrss_bytes,
    vm_hwm_bytes, ExitKind, Monitor, RunLimits, Sample,
};

fn ms(n: u64) -> Duration {
    Duration::from_millis(n)
}

fn limits(cpu: u64, wall: u64, memory: u64) -> RunLimits {
    RunLimits { cpu: ms(cpu), wall: ms(wall), memory }
}

fn sample(cpu: u64, elapsed: u64, resident: u64) -> Sample {
    Sample { cpu: Some(ms(cpu)), elapsed: ms(elapsed), resident: Some(resident) }
}

#[test]
fn a_busy_process_hits_the_cpu_limit() {
    let limits = limits(200, 5_000, 1 << 30);
    let mut m = Monitor::new();
    for t in 0..=200 {
        assert!(!m.poll(&limits, &sample(t, t, 1000)));
    }
    assert!(m.poll(&limits, &sample(201, 201, 1000)));
    assert!(m.timed_out && !m.hung && !m.memory_exceeded && m.killed);
    // It is killed once, whatever it shows until it is gone.
    assert!(!m.poll(&limits, &sample(900, 9_000, 1 << 40)));
    let stats = m.finish(&limits, 2000, ms(203), ms(204), ExitKind::Signal(9));
    assert!(stats.timed_out && !stats.hung && !stats.memory_exceeded);
    assert_eq!(stats.peak_memory, 2000);
    assert_eq!(stats.cpu_time.as_millis(), 203);
    assert_eq!(stats.wall_time.as_millis(), 204);
    assert_eq!(stats.exit, ExitKind::Signal(9));
}

#[test]
fn an_idle_process_trips_the_backstop() {
    let limits = limits(200, 300, u64::MAX);
    let mut m = Monitor::new();
    assert!(!m.poll(&limits, &sample(0, 299, 1)));
    assert!(m.poll(&limits, &sample(0, 300, 1)));
    assert!(m.timed_out && m.hung);
    let stats = m.finish(&limits, 1, ms(1), ms(301), ExitKind::Signal(9));
    assert!(stats.timed_out && stats.hung);
}

#[test]
fn memory_is_watched() {
    let limits = limits(200, 300, 4096);
    let mut m = Monitor::new();
    assert!(!m.poll(&limits, &sample(0, 0, 4096)));
    assert_eq!(m.peak, 4096);
    assert!(m.poll(&limits, &sample(0, 0, 4097)));
    assert!(m.memory_exceeded && !m.timed_out);
    let stats = m.finish(&limits, 4000, ms(1), ms(1), ExitKind::Signal(9));
    assert!(stats.memory_exceeded);
    assert_eq!(stats.peak_memory, 4097);
}

#[test]
fn a_quick_offender_is_caught_afterwards() {
    let limits = limits(200, 5_000, u64::MAX);
    let mut m = Monitor::new();
    let blind = Sample { cpu: None, elapsed: ms(1), resident: None };
    assert!(!m.poll(&limits, &blind));
    assert_eq!(m.peak, 0);
    let stats = m.finish(&limits, 5, ms(201), ms(100), ExitKind::Code(0));
    assert!(stats.timed_out && !stats.hung);
    let stats = m.finish(&limits, 5, Duration::new(0, 200_999_999), ms(100), ExitKind::Code(0));
    assert!(!stats.timed_out);
}

#[test]
fn jobs_judge_their_memory_at_the_end() {
    let limits = limits(200, 5_000, 100);
    let m = Monitor::new();
    let stats = m.finish_job(&limits, 101, ms(1), ms(2), 3);
    assert!(stats.memory_exceeded && !stats.timed_out);
    assert_eq!(stats.exit, ExitKind::Code(3));
    let stats = m.finish_job(&limits, 100, ms(201), ms(2), 0xc0000005);
    assert!(!stats.memory_exceeded && stats.timed_out);
    assert_eq!(stats.exit, ExitKind::Code(0xc0000005u32 as i32));
}

#[test]
fn the_largest_limits_never_bite() {
    let limits = RunLimits { cpu: Duration::max(), wall: ms(10), memory: u64::MAX };
    let mut m = Monitor::new();
    let s = Sample { cpu: Some(Duration::max()), elapsed: ms(9), resident: Some(u64::MAX) };
    assert!(!m.poll(&limits, &s));
    assert!(!m.killed);
}

#[test]
fn statuses_are_decoded() {
    assert_eq!(decode_status(0), ExitKind::Code(0));
    assert_eq!(decode_status(0x0100), ExitKind::Code(1));
    assert_eq!(decode_status(0xff00), ExitKind::Code(255));
    assert_eq!(decode_status(9), ExitKind::Signal(9));
    assert_eq!(decode_status(0x80 | 11), ExitKind::Signal(11));
    assert_eq!(decode_status(0x137f), ExitKind::Code(-1));
    for status in -70_000..70_000 {
        let wanted = if libc::WIFEXITED(status) {
            ExitKind::Code(libc::WEXITSTATUS(status))
        } else if libc::WIFSIGNALED(status) {
            ExitKind::Signal(libc::WTERMSIG(status))
        } else {
            ExitKind::Code(-1)
        };
        assert_eq!(decode_status(status), wanted, "{status:x}");
    }
}

#[test]
fn usage_is_read_by_platform() {
    assert_eq!(ru_maxrss_bytes(Platform::Linux, 2048), 2 << 20);
    assert_eq!(ru_maxrss_bytes(Platform::Unix, 2048), 2048);
    assert_eq!(ru_maxrss_bytes(Platform::Linux, -5), 0);
}

#[test]
fn clocks_are_clamped() {
    let d = ru_cpu_time(1, 500_000, 2, 600_000);
    assert_eq!((d.as_secs(), d.subsec_nanos()), (4, 100_000_000));
    let d = ru_cpu_time(-1, 2_000_000, 0, -7);
    assert_eq!((d.as_secs(), d.subsec_nanos()), (0, 999_999_000));
    let d = cpu_time(3, 1_000_000_000);
    assert_eq!((d.as_secs(), d.subsec_nanos()), (3, 999_999_999));
    let d = cpu_time(-3, -1);
    assert_eq!(d.as_millis(), 0);
    let d = process_cpu_time(0, 10_000_000, 0, 5_000_001);
    assert_eq!((d.as_secs(), d.subsec_nanos()), (1, 500_000_100));
    let d = process_cpu_time(1, 0, 1, 0);
    assert_eq!(d.as_millis(), (1u128 << 33) / 10_000);
    let d = process_cpu_time(u32::MAX, u32::MAX, u32::MAX, u32::MAX);
    assert_eq!(d.as_secs(), (2 * u64::MAX as u128 / 10_000_000) as u64);
}

#[test]
fn peaks_are_read_from_the_status() {
    let peak = |s: &str| {
        s.lines()
            .find_map(|l| l.strip_prefix("VmHWM:").map(|v| v.trim_end_matches("kB").trim()))
            .and_then(|v| v.parse::<u64>().ok())
            .map(|kb| kb * 1024)
    };
    for s in [
        "Name:\tx\nVmPeak:\t 9 kB\nVmHWM:\t    5124 kB\nVmRSS:\t 1 kB\n",
        "VmHWM:\t5124 kB",
        "VmHWM:7",
        "VmHWM: 7kBkB",
        "VmHWM: 7 kB kB",
        "VmHWM: x kB\nVmHWM: 3 kB",
        " VmHWM: 7 kB",
        "VmHW",
        "VmHWM:",
        "",
        "VmHWM: +7 kB",
        "VmHWM: -7 kB",
    ] {
        assert_eq!(vm_hwm_bytes(s), peak(s), "{s:?}");
    }
    assert_eq!(vm_hwm_bytes("VmHWM:\t 5124 kB\n"), Some(5124 * 1024));
    // More than can be counted in bytes.
    assert_eq!(vm_hwm_bytes("VmHWM: 18446744073709551615 kB"), None);
}

#[test]
fn command_lines_are_quoted() {
    let args = |v: &[&str]| v.iter().map(|s| s.to_string()).collect::<Vec<_>>();
    assert_eq!(command_line(&args(&["a b", "c\"d", ""])), "\"a b\" \"c\\\"d\" \"\"");
    assert_eq!(command_line(&args(&[])), "");
}
