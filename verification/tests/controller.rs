use rkill::controller::{describe, format_start_time, stop_decision, StopAction};
use rkill::encode::encode;
use rkill::snapshot::{ProcessRecord, Snapshot};

fn record(name: &str, pid: i32) -> ProcessRecord {
    ProcessRecord {
        pid,
        name: name.to_string(),
        start_time: 1431648000,
        status: "Sleeping".to_string(),
        exe: format!("/usr/bin/{}", name),
        cmd: vec![name.to_string(), "--flag".to_string()],
    }
}

fn two_processes() -> Snapshot {
    Snapshot { procs: vec![record("sshd", 100), record("bash", 200)] }
}

#[test]
fn selecting_a_row_terminates_that_pid() {
    let snap = two_processes();
    let row = encode("bash", 200);
    assert_eq!(stop_decision(&row, &snap), StopAction::Terminate { pid: 200 });
    let other = encode("sshd", 100);
    assert_eq!(stop_decision(&other, &snap), StopAction::Terminate { pid: 100 });
}

#[test]
fn vanished_process_is_not_found_not_a_crash() {
    // Between building the row and acting, pid 200 went away.
    let stale_row = encode("bash", 200);
    let fresh = Snapshot { procs: vec![record("sshd", 100)] };
    assert_eq!(stop_decision(&stale_row, &fresh), StopAction::NotFound { pid: 200 });
}

#[test]
fn unresolvable_selection() {
    let snap = two_processes();
    assert_eq!(stop_decision("no digits here", &snap), StopAction::Unresolvable);
    assert_eq!(stop_decision("", &snap), StopAction::Unresolvable);
}

#[test]
fn describe_found_process() {
    let snap = two_processes();
    let d = describe(&snap, 200).expect("pid 200 is in the snapshot");
    assert_eq!(d.pid, 200);
    assert_eq!(d.name, "bash");
    assert_eq!(d.exe, "/usr/bin/bash");
    assert_eq!(d.status, "Sleeping");
    assert_eq!(d.cmd, vec!["bash".to_string(), "--flag".to_string()]);
    assert_eq!(d.started.as_deref(), Some("2015-05-15 00:00:00 UTC"));
}

#[test]
fn describe_missing_process() {
    let snap = two_processes();
    assert!(describe(&snap, 12345).is_none());
}

#[test]
fn describe_picks_first_of_equal_pids() {
    let snap = Snapshot { procs: vec![record("first", 7), record("second", 7)] };
    let d = describe(&snap, 7).expect("pid 7 is in the snapshot");
    assert_eq!(d.name, "first");
}

#[test]
fn start_time_rendering() {
    assert_eq!(format_start_time(0).as_deref(), Some("1970-01-01 00:00:00 UTC"));
    assert_eq!(format_start_time(86400).as_deref(), Some("1970-01-02 00:00:00 UTC"));
    assert_eq!(format_start_time(1431648000).as_deref(), Some("2015-05-15 00:00:00 UTC"));
    assert_eq!(format_start_time(u64::MAX), None);
}

#[test]
fn start_time_calendar_boundary() {
    // The last second of chrono's calendar renders; one second later does not.
    let max_ts = rkill::controller::CHRONO_MAX_TS as u64;
    assert!(format_start_time(max_ts).is_some());
    assert_eq!(format_start_time(max_ts + 1), None);
}

#[test]
fn chrono_calendar_bounds_match() {
    // The two bounds assumed of chrono are exactly the timestamps of its own
    // extreme date-times.
    let min_ts = rkill::controller::CHRONO_MIN_TS;
    let max_ts = rkill::controller::CHRONO_MAX_TS;
    assert_eq!(chrono::DateTime::<chrono::Utc>::MIN_UTC.timestamp(), min_ts);
    assert_eq!(chrono::DateTime::<chrono::Utc>::MAX_UTC.timestamp(), max_ts);
    assert!(chrono::DateTime::<chrono::Utc>::from_timestamp(min_ts, 0).is_some());
    assert!(chrono::DateTime::<chrono::Utc>::from_timestamp(min_ts - 1, 0).is_none());
}
