//! Tests of the event-logger decisions: interval parsing, rotation
//! deadlines, and log-line assembly.

use libdonet::eventlog::{
    format_log_entry, log_file_path, next_rotation_timestamp, open_log_plan, Interval,
    IntervalUnit,
};

#[test]
fn str_to_interval() {
    let inputs: [&str; 5] = ["1min", "10h", "999hr", "42d", "3mo"];
    let outputs: [Interval; 5] = [
        (1, IntervalUnit::Minutes),
        (10, IntervalUnit::Hours),
        (999, IntervalUnit::Hours),
        (42, IntervalUnit::Days),
        (3, IntervalUnit::Months),
    ];

    for (i, input) in inputs.iter().enumerate() {
        assert_eq!(libdonet::eventlog::str_to_interval(input), Some(outputs[i]));
    }
}

#[test]
fn rejects_negative_zero_or_malformed_interval() {
    assert_eq!(libdonet::eventlog::str_to_interval("-1d"), None);
    assert_eq!(libdonet::eventlog::str_to_interval("0d"), None);
    assert_eq!(libdonet::eventlog::str_to_interval("min"), None);
    assert_eq!(libdonet::eventlog::str_to_interval("5"), None);
    assert_eq!(libdonet::eventlog::str_to_interval(""), None);
}

#[test]
fn next_rotation_adds_interval_seconds() {
    assert_eq!(next_rotation_timestamp(1000, &(1, IntervalUnit::Minutes)), Some(1060));
    assert_eq!(next_rotation_timestamp(1000, &(2, IntervalUnit::Hours)), Some(8200));
    assert_eq!(next_rotation_timestamp(0, &(42, IntervalUnit::Days)), Some(3628800));
    assert_eq!(next_rotation_timestamp(0, &(3, IntervalUnit::Months)), Some(7776000));
    assert_eq!(next_rotation_timestamp(i64::MAX, &(1, IntervalUnit::Days)), None);
}

#[test]
fn log_path_gets_exactly_one_slash() {
    assert_eq!(log_file_path("/var/log", "el-%Y.log"), "/var/log/el-%Y.log");
    assert_eq!(log_file_path("/var/log/", "el-%Y.log"), "/var/log/el-%Y.log");
}

#[test]
fn log_entry_splices_timestamp_into_map() {
    let entry = format_log_entry("{\"type\": \"ai\"}", "\"_time\": \"t\", ");
    assert_eq!(entry, Some("{\"_time\": \"t\", \"type\": \"ai\"}\n".to_string()));
    assert_eq!(format_log_entry("[1, 2]", "x"), None);
    assert_eq!(format_log_entry("", "x"), None);
}

#[test]
fn open_log_plan_renders_name_and_deadline() {
    let plan = open_log_plan(0, "el-%Y-%m-%d.log", &(1, IntervalUnit::Days));
    let (name, next) = plan.unwrap();
    assert_eq!(name, "el-1970-01-01.log");
    assert_eq!(next, 86400);
}
