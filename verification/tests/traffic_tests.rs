use chrono::Datelike;
use easytier_web::peers::ReportedPeer;
use easytier_web::traffic::{
    current_period_key, current_period_key_with_date, in_cooldown_after, quota_step, QuotaAction, QuotaEvent, period_format, quota_enabled, quota_exceeded, quota_period_valid,
    usage_increment, TrafficState,
};

fn peer(ip: Option<&str>, rx: Option<u64>, tx: Option<u64>) -> ReportedPeer {
    ReportedPeer { peer_id: 1, ip: ip.map(|s| s.to_string()), hostname: None, rx_bytes: rx, tx_bytes: tx }
}

fn reporter(r: &str) -> Option<String> {
    Some(r.to_string())
}

#[test]
fn test_period_key_formats() {
    let now = chrono::Local::now();
    let hour = current_period_key("hour");
    assert!(hour.starts_with(&now.format("%Y-%m-%dT%H").to_string()[..10]));
    assert!(hour.len() == 13);

    let day = current_period_key("day");
    assert_eq!(day.len(), 10);

    let week = current_period_key("week");
    assert!(week.contains("-W"));

    let month = current_period_key("month");
    assert_eq!(month.len(), 7);

    let unknown = current_period_key("year");
    assert_eq!(unknown.len(), 10);
}

fn two_digits(s: &str, lo: u32, hi: u32) -> bool {
    s.len() == 2 && s.chars().all(|c| c.is_ascii_digit()) && {
        let v: u32 = s.parse().unwrap();
        lo <= v && v <= hi
    }
}

#[test]
fn test_period_key_shape() {
    let hour = current_period_key("hour");
    let b = hour.as_bytes();
    assert!(hour[..4].chars().all(|c| c.is_ascii_digit()));
    assert_eq!(b[4], b'-');
    assert!(two_digits(&hour[5..7], 1, 12));
    assert_eq!(b[7], b'-');
    assert!(two_digits(&hour[8..10], 1, 31));
    assert_eq!(b[10], b'T');
    assert!(two_digits(&hour[11..13], 0, 23));

    let week = current_period_key("week");
    assert_eq!(week.len(), 8);
    assert_eq!(&week[4..6], "-W");
    assert!(two_digits(&week[6..8], 1, 53));

    let month = current_period_key("month");
    assert!(two_digits(&month[5..7], 1, 12));
}

#[test]
fn test_delta_calculation() {
    let prev_rx: u64 = 1000;
    let prev_tx: u64 = 500;

    let cur_rx: u64 = 1500;
    let cur_tx: u64 = 800;
    let delta_rx = cur_rx.saturating_sub(prev_rx);
    let delta_tx = cur_tx.saturating_sub(prev_tx);
    assert_eq!(delta_rx, 500);
    assert_eq!(delta_tx, 300);
    assert_eq!(delta_rx + delta_tx, 800);

    let new_rx: u64 = 200;
    let new_tx: u64 = 100;
    let d_rx = new_rx.saturating_sub(prev_rx);
    let d_tx = new_tx.saturating_sub(prev_tx);
    assert_eq!(d_rx, 0);
    assert_eq!(d_tx, 0);

    // The same figures through the snapshot accounting.
    let mut state = TrafficState::new();
    let r = reporter("10.0.0.1");
    let first = state.try_record_report(&r, &vec![peer(Some("10.0.0.5"), Some(prev_rx), Some(prev_tx))], false);
    assert_eq!(first, Some(vec![]));
    let second = state.try_record_report(&r, &vec![peer(Some("10.0.0.5"), Some(cur_rx), Some(cur_tx))], false);
    assert_eq!(second, Some(vec![("10.0.0.5".to_string(), 800)]));
    let reset = state.try_record_report(&r, &vec![peer(Some("10.0.0.5"), Some(new_rx), Some(new_tx))], false);
    assert_eq!(reset, Some(vec![]));
}

#[test]
fn test_traffic_state_cooldown() {
    let state = TrafficState::new();
    assert!(state.in_cooldown());
}

#[test]
fn cooldown_threshold_is_ninety_seconds() {
    assert!(in_cooldown_after(0));
    assert!(in_cooldown_after(89));
    assert!(!in_cooldown_after(90));
    assert!(!in_cooldown_after(1000));
}

#[test]
fn cooldown_reports_charge_nothing_but_set_baselines() {
    let mut state = TrafficState::new();
    let r = reporter("agent");
    assert_eq!(state.try_record_report(&r, &vec![peer(Some("a"), Some(10), Some(10))], true), Some(vec![]));
    assert_eq!(state.try_record_report(&r, &vec![peer(Some("a"), Some(30), Some(10))], true), Some(vec![]));
    // out of the cool-down, growth since the last (cool-down) baseline
    assert_eq!(
        state.try_record_report(&r, &vec![peer(Some("a"), Some(35), Some(12))], false),
        Some(vec![("a".to_string(), 7)])
    );
}

#[test]
fn anonymous_reports_are_ignored() {
    let mut state = TrafficState::new();
    let peers = vec![peer(Some("a"), Some(10), None)];
    assert_eq!(state.try_record_report(&None, &peers, false), Some(vec![]));
    assert_eq!(state.try_record_report(&Some(String::new()), &peers, false), Some(vec![]));
    // no baseline was recorded: the next named report is a first sighting
    assert_eq!(state.try_record_report(&reporter("r"), &vec![peer(Some("a"), Some(50), None)], false), Some(vec![]));
}

#[test]
fn peers_without_ip_or_traffic_are_skipped() {
    let mut state = TrafficState::new();
    let r = reporter("r");
    let peers = vec![peer(None, Some(5), Some(5)), peer(Some("b"), None, None), peer(Some("c"), Some(0), Some(0))];
    assert_eq!(state.try_record_report(&r, &peers, false), Some(vec![]));
    let peers2 = vec![peer(None, Some(50), Some(50)), peer(Some("b"), Some(1), None), peer(Some("c"), Some(0), Some(3))];
    // b and c only now have traffic: baselines, nothing charged
    assert_eq!(state.try_record_report(&r, &peers2, false), Some(vec![]));
}

#[test]
fn repeated_report_charges_nothing() {
    let mut state = TrafficState::new();
    let r = reporter("r");
    let peers = vec![peer(Some("a"), Some(1), Some(2)), peer(Some("b"), Some(3), Some(4))];
    state.try_record_report(&r, &peers, false);
    let grown = vec![peer(Some("a"), Some(11), Some(2)), peer(Some("b"), Some(3), Some(9))];
    assert_eq!(
        state.try_record_report(&r, &grown, false),
        Some(vec![("a".to_string(), 10), ("b".to_string(), 5)])
    );
    assert_eq!(state.try_record_report(&r, &grown, false), Some(vec![]));
}

#[test]
fn stale_peers_are_forgotten_and_reporters_kept_apart() {
    let mut state = TrafficState::new();
    let r1 = reporter("r1");
    let r2 = reporter("r2");
    state.try_record_report(&r1, &vec![peer(Some("a"), Some(100), None)], false);
    state.try_record_report(&r2, &vec![peer(Some("a"), Some(500), None)], false);
    // r1 stops reporting a: its snapshot for a goes
    state.try_record_report(&r1, &vec![peer(Some("z"), Some(1), None)], false);
    // a back at r1 is a first sighting again
    assert_eq!(state.try_record_report(&r1, &vec![peer(Some("a"), Some(150), None)], false), Some(vec![]));
    // r2's snapshot of a was not touched
    assert_eq!(
        state.try_record_report(&r2, &vec![peer(Some("a"), Some(520), None)], false),
        Some(vec![("a".to_string(), 20)])
    );
}

#[test]
fn peer_listed_without_traffic_keeps_its_snapshot() {
    let mut state = TrafficState::new();
    let r = reporter("r");
    state.try_record_report(&r, &vec![peer(Some("a"), Some(100), None)], false);
    // reported with zero counters: no new snapshot, but not stale either
    assert_eq!(state.try_record_report(&r, &vec![peer(Some("a"), None, None)], false), Some(vec![]));
    assert_eq!(
        state.try_record_report(&r, &vec![peer(Some("a"), Some(130), None)], false),
        Some(vec![("a".to_string(), 30)])
    );
}

#[test]
fn overflowing_charge_is_refused_and_state_kept() {
    let mut state = TrafficState::new();
    let r = reporter("r");
    state.try_record_report(&r, &vec![peer(Some("a"), Some(1), Some(1))], false);
    let huge = vec![peer(Some("a"), Some(u64::MAX), Some(u64::MAX))];
    assert_eq!(state.try_record_report(&r, &huge, false), None);
    // the failed report left the snapshot at (1, 1)
    assert_eq!(
        state.try_record_report(&r, &vec![peer(Some("a"), Some(3), Some(1))], false),
        Some(vec![("a".to_string(), 2)])
    );
    // in the cool-down nothing is summed, so nothing overflows
    assert_eq!(state.try_record_report(&r, &huge, true), Some(vec![]));
}

#[test]
fn duplicate_ips_in_one_report_chain() {
    let mut state = TrafficState::new();
    let r = reporter("r");
    let twice = vec![peer(Some("a"), Some(100), None), peer(Some("a"), Some(250), None)];
    assert_eq!(state.try_record_report(&r, &twice, false), Some(vec![("a".to_string(), 150)]));
}

#[test]
fn quota_helpers() {
    assert!(quota_period_valid("hour"));
    assert!(quota_period_valid("day"));
    assert!(quota_period_valid("week"));
    assert!(quota_period_valid("month"));
    assert!(!quota_period_valid("year"));
    assert!(!quota_period_valid("Hour"));
    assert_eq!(period_format("hour"), "%Y-%m-%dT%H");
    assert_eq!(period_format("day"), "%Y-%m-%d");
    assert_eq!(period_format("week"), "%G-W%V");
    assert_eq!(period_format("month"), "%Y-%m");
    assert_eq!(period_format("year"), "%Y-%m-%d");
    assert!(quota_enabled(None));
    assert!(!quota_enabled(Some(false)));
    assert_eq!(usage_increment(800), 800);
    assert_eq!(usage_increment(u64::MAX), -1);
    assert!(quota_exceeded(100, 100));
    assert!(quota_exceeded(101, 100));
    assert!(!quota_exceeded(99, 100));
}

fn expected_key(period_type: &str, y: i32, m: u32, d: u32, h: u32, iy: i32, iw: u32) -> String {
    let year = |v: i32| if (0..=9999).contains(&v) { format!("{:04}", v) } else { format!("{:+05}", v) };
    match period_type {
        "hour" => format!("{}-{:02}-{:02}T{:02}", year(y), m, d, h),
        "week" => format!("{}-W{:02}", year(iy), iw),
        "month" => format!("{}-{:02}", year(y), m),
        _ => format!("{}-{:02}-{:02}", year(y), m, d),
    }
}

#[test]
fn period_key_names_its_date() {
    for p in ["hour", "day", "week", "month", "year"] {
        let (key, d) = current_period_key_with_date(p);
        assert!((1..=12).contains(&d.month));
        assert!((1..=31).contains(&d.day));
        assert!(d.hour <= 23);
        assert!((1..=53).contains(&d.iso_week));
        assert!((d.iso_year - d.year).abs() <= 1);
        assert_eq!(key, expected_key(p, d.year, d.month, d.day, d.hour, d.iso_year, d.iso_week));
    }
}

#[test]
fn quota_charge_steps() {
    assert_eq!(quota_step(500, 1000, QuotaEvent::Begin), QuotaAction::AddUsage(500));
    assert_eq!(quota_step(500, 1000, QuotaEvent::RowsUpdated(0)), QuotaAction::InsertUsage(500));
    assert_eq!(quota_step(500, 1000, QuotaEvent::RowsUpdated(1)), QuotaAction::ReadUsage);
    assert_eq!(quota_step(500, 1000, QuotaEvent::Inserted), QuotaAction::ReadUsage);
    assert_eq!(quota_step(500, 1000, QuotaEvent::UsageRead(999)), QuotaAction::Done);
    assert_eq!(quota_step(500, 1000, QuotaEvent::UsageRead(1000)), QuotaAction::BlockIp);
    assert_eq!(quota_step(500, 1000, QuotaEvent::Blocked), QuotaAction::Done);
    assert_eq!(quota_step(u64::MAX, 0, QuotaEvent::Begin), QuotaAction::AddUsage(-1));
}

#[test]
fn period_key_iso_week_and_nesting() {
    let (hour_key, d) = current_period_key_with_date("hour");
    let date = chrono::NaiveDate::from_ymd_opt(d.year, d.month, d.day).unwrap();
    assert_eq!(date.iso_week().year(), d.iso_year);
    assert_eq!(date.iso_week().week(), d.iso_week);
    let day_key = expected_key("day", d.year, d.month, d.day, d.hour, d.iso_year, d.iso_week);
    let month_key = expected_key("month", d.year, d.month, d.day, d.hour, d.iso_year, d.iso_week);
    assert!(hour_key.starts_with(&day_key));
    assert!(day_key.starts_with(&month_key));
}

#[test]
fn cooldown_reading_matches_threshold() {
    let state = TrafficState::new();
    let (secs, cooling) = state.cooldown_reading();
    assert_eq!(cooling, in_cooldown_after(secs));
    assert!(secs < 90);
    assert!(cooling);
}
