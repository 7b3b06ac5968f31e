use rkill::encode::{build_rows, encode, join_lines};
use rkill::resolve::get_pid;
use rkill::snapshot::{ProcessRecord, Snapshot};

fn record(name: &str, pid: i32) -> ProcessRecord {
    ProcessRecord {
        pid,
        name: name.to_string(),
        start_time: 0,
        status: "R".to_string(),
        exe: String::new(),
        cmd: Vec::new(),
    }
}

#[test]
fn encode_name_then_pid() {
    // 4 name characters, 21 spaces of padding, then the decimal id.
    assert_eq!(encode("sshd", 100), "sshd                     100");
}

#[test]
fn encode_short_pid_padded() {
    // A single-digit id is padded on the right to two characters.
    assert_eq!(encode("x", 5), "x                        5 ");
}

#[test]
fn encode_negative_pid() {
    assert_eq!(encode("p", -7), "p                        -7");
}

#[test]
fn encode_pid_zero() {
    assert_eq!(encode("a", 0), "a                        0 ");
}

#[test]
fn encode_empty_name() {
    assert_eq!(encode("", 42), "                         42");
}

#[test]
fn encode_truncates_long_name() {
    let name = "a".repeat(40);
    let row = encode(&name, 31);
    let expected = format!("{}  31", "a".repeat(23));
    assert_eq!(row, expected);
    assert_eq!(row.chars().count(), 27);
}

#[test]
fn encode_truncation_is_codepoint_safe() {
    let name = "\u{e9}".repeat(40);
    let row = encode(&name, 9);
    let expected = format!("{}  9 ", "\u{e9}".repeat(23));
    assert_eq!(row, expected);
    assert_eq!(row.chars().count(), 27);
}

#[test]
fn encode_then_resolve_round_trip() {
    assert_eq!(get_pid(&encode("bash", 200)), Some(200));
    assert_eq!(get_pid(&encode("", 1)), Some(1));
    assert_eq!(get_pid(&encode("a".repeat(40).as_str(), 77)), Some(77));
    assert_eq!(get_pid(&encode("x", -3)), Some(-3));
}

#[test]
fn build_rows_in_snapshot_order() {
    let snap = Snapshot { procs: vec![record("sshd", 100), record("bash", 200)] };
    let rows = build_rows(&snap);
    assert_eq!(rows.len(), 2);
    assert_eq!(rows[0], encode("sshd", 100));
    assert_eq!(rows[1], encode("bash", 200));
}

#[test]
fn join_lines_single_newlines() {
    let rows = vec!["a".to_string(), "b".to_string(), "c".to_string()];
    assert_eq!(join_lines(&rows), "a\nb\nc");
    assert_eq!(join_lines(&vec![]), "");
    assert_eq!(join_lines(&vec!["only".to_string()]), "only");
}
