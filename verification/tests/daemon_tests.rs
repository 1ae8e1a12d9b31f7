use sauron::config::Config;
use sauron::daemon::{
    CaptureTick, Daemon, StartCheck, SummaryCheck, SummaryScheduler, MAX_SUMMARY_RETRIES,
    is_sauron_command,
};

#[test]
fn daily_time_takes_the_first_two_numbers() {
    assert_eq!(Daemon::parse_daily_time("23:59"), (23, 59));
    assert_eq!(Daemon::parse_daily_time("7:05"), (7, 5));
    assert_eq!(Daemon::parse_daily_time(""), (23, 59));
    assert_eq!(Daemon::parse_daily_time("18"), (18, 59));
    // pieces that are not numbers are skipped
    assert_eq!(Daemon::parse_daily_time("aa:30"), (30, 59));
    assert_eq!(Daemon::parse_daily_time("x:1:2"), (1, 2));
}

#[test]
fn capture_tick_prefers_pause() {
    assert_eq!(Daemon::capture_tick_for(true, true), CaptureTick::Paused);
    assert_eq!(Daemon::capture_tick_for(true, false), CaptureTick::Paused);
    assert_eq!(Daemon::capture_tick_for(false, false), CaptureTick::Inactive);
    assert_eq!(Daemon::capture_tick_for(false, true), CaptureTick::Capture);
    let d = Daemon::new(Config::default());
    let _ = d.capture_tick();
}

#[test]
fn start_check_inspects_only_other_processes() {
    assert_eq!(Daemon::start_check(None, 10), StartCheck::Start);
    assert_eq!(Daemon::start_check(Some(10), 10), StartCheck::Start);
    assert_eq!(Daemon::start_check(Some(11), 10), StartCheck::Inspect(11));
}

#[test]
fn pid_file_round_trip() {
    assert_eq!(Daemon::pid_file_contents(4321), "4321");
    assert_eq!(Daemon::parse_pid("4321\n"), Some(4321));
    assert_eq!(Daemon::parse_pid("  77 "), Some(77));
    assert_eq!(Daemon::parse_pid("abc"), None);
    assert_eq!(Daemon::parse_pid(""), None);
    assert_eq!(Daemon::parse_pid(&Daemon::pid_file_contents(u32::MAX)), Some(u32::MAX));
    assert!(Daemon::pid_path().ends_with("sauron/sauron.pid"));
}

#[test]
fn sauron_command_names() {
    assert!(is_sauron_command("sauron\n"));
    assert!(is_sauron_command("/usr/local/bin/SAURON"));
    assert!(is_sauron_command("Sauron-helper"));
    assert!(!is_sauron_command("bash"));
    assert!(!is_sauron_command(""));
}

#[test]
fn summary_waits_for_the_target_time() {
    let s = SummaryScheduler::new("23:59");
    assert_eq!(s.target(), (23, 59));
    assert_eq!(s.retries(), 0);
    assert_eq!(s.check("2026-03-08", 23, 58), SummaryCheck::TooEarly);
    assert_eq!(s.check("2026-03-08", 22, 59), SummaryCheck::TooEarly);
    assert_eq!(s.check("2026-03-08", 23, 59), SummaryCheck::Due);
    let s = SummaryScheduler::new("9:30");
    assert_eq!(s.check("2026-03-08", 10, 0), SummaryCheck::Due);
}

#[test]
fn one_summary_per_day() {
    let mut s = SummaryScheduler::new("12:00");
    s.record_success("2026-03-08");
    assert_eq!(s.check("2026-03-08", 23, 0), SummaryCheck::AlreadyDone);
    assert_eq!(s.check("2026-03-09", 12, 0), SummaryCheck::Due);
    s.record_no_entries("2026-03-09");
    assert_eq!(s.check("2026-03-09", 13, 0), SummaryCheck::AlreadyDone);
}

#[test]
fn summary_given_up_after_max_retries() {
    let mut s = SummaryScheduler::new("12:00");
    for k in 1..MAX_SUMMARY_RETRIES {
        assert!(!s.record_failure("2026-03-08"));
        assert_eq!(s.retries(), k);
        assert_eq!(s.check("2026-03-08", 12, 0), SummaryCheck::Due);
    }
    assert!(s.record_failure("2026-03-08"));
    assert_eq!(s.retries(), 0);
    assert_eq!(s.check("2026-03-08", 12, 0), SummaryCheck::AlreadyDone);
}

#[test]
fn success_forgets_failures() {
    let mut s = SummaryScheduler::new("12:00");
    s.record_failure("d1");
    s.record_failure("d1");
    s.record_success("d1");
    assert_eq!(s.retries(), 0);
    // no entries keeps the failure count, as the loop does
    let mut t = SummaryScheduler::new("12:00");
    t.record_failure("d2");
    t.record_no_entries("d2");
    assert_eq!(t.retries(), 1);
}
