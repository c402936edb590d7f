use std::str::FromStr;

use home_automation_rs::logs::{
    content_line, lines_for_process, lines_from_offset, process_history_lines, list_log_files, parse_timestamp_from_line,
    since_cutoff_at, since_param_cutoff, LineTail, LogFile, SinceCollector,
};

#[test]
fn test_format_display_name() {
    assert_eq!(LogFile::SystemMonitor.display_name(), "System Monitor");
    assert_eq!(LogFile::ProcessMonitor.display_name(), "Process Monitor");
    assert_eq!(LogFile::TopCpuConsumers.display_name(), "Top CPU Consumers");
}

#[test]
fn log_file_names_roundtrip() {
    for f in LogFile::all() {
        assert_eq!(LogFile::from_str(f.filename()), Ok(f));
    }
    assert_eq!(LogFile::from_str("system_monitor"), Err(()));
    assert_eq!(LogFile::from_str("../etc/passwd"), Err(()));
    assert_eq!(LogFile::TopRamConsumers.display_name(), "Top RAM Consumers");
}

#[test]
fn listing_order() {
    let list = list_log_files();
    let names: Vec<&str> = list.iter().map(|i| i.name.as_str()).collect();
    assert_eq!(
        names,
        vec!["system_monitor.log", "process_monitor.log", "top_cpu_consumers.log", "top_ram_consumers.log"]
    );
    assert_eq!(list[3].display_name, "Top RAM Consumers");
}

#[test]
fn content_lines_skip_header_and_blank() {
    assert!(!content_line("Timestamp,CPU,RAM"));
    assert!(!content_line("   \t"));
    assert!(content_line("2024-01-01 10:00:00,1,2"));
}

#[test]
fn tail_keeps_last_lines_in_order() {
    let mut tail = LineTail::new(3);
    for l in ["Timestamp,a", "1", "", "2", "3", "4", "5"] {
        tail.push(l.to_string());
    }
    assert_eq!(tail.count(), 5);
    assert_eq!(tail.into_lines(), vec!["3", "4", "5"]);

    let mut short = LineTail::new(10);
    for l in ["a", "b"] {
        short.push(l.to_string());
    }
    assert_eq!(short.into_lines(), vec!["a", "b"]);

    let mut exact = LineTail::new(2);
    for l in ["a", "b", "c", "d"] {
        exact.push(l.to_string());
    }
    assert_eq!(exact.into_lines(), vec!["c", "d"]);
}

#[test]
fn offset_slices_entry_lines() {
    let lines: Vec<String> = ["Timestamp,x", "a", "", "b", "c"].iter().map(|s| s.to_string()).collect();
    let (rest, total) = lines_from_offset(&lines, 1);
    assert_eq!(total, 3);
    assert_eq!(rest, vec!["b", "c"]);
    let (none, total) = lines_from_offset(&lines, 3);
    assert_eq!(total, 3);
    assert!(none.is_empty());
}

#[test]
fn process_lines_match_name_and_pid() {
    let lines: Vec<String> = [
        "2024-01-01 10:00:00,nginx,12,1.0,2.0,S",
        "2024-01-01 10:01:00,nginx,99,1.0,2.0,S",
        "2024-01-01 10:01:00,postgres,13,1.0,2.0,S",
        "2024-01-01 10:02:00,nginx,12,1.0",
    ]
    .iter()
    .map(|s| s.to_string())
    .collect();
    let picked = lines_for_process(&lines, "nginx", "12");
    assert_eq!(picked, vec![lines[0].clone()]);
    let picked = lines_for_process(&lines, "nginx", "99");
    assert_eq!(picked, vec![lines[1].clone()]);
}

#[test]
fn line_timestamps() {
    assert_eq!(parse_timestamp_from_line("2021-01-01 00:00:00,5,6"), Some(1_609_459_200));
    assert_eq!(parse_timestamp_from_line("2021-01-01 00:00:01"), Some(1_609_459_201));
    assert_eq!(parse_timestamp_from_line("yesterday,5"), None);
}

#[test]
fn collector_stops_at_first_older_entry() {
    // cutoff 2021-01-01 00:00:30
    let mut c = SinceCollector::new(1_609_459_230, 0);
    let newest_first = [
        "2021-01-01 00:01:00,c",
        "",
        "garbled,b2",
        "2021-01-01 00:00:30,b",
        "Timestamp,header",
        "2021-01-01 00:00:29,a",
        "2021-01-01 00:00:40,never",
    ];
    let mut offered = 0;
    for l in newest_first {
        offered += 1;
        if !c.offer(l.to_string()) {
            break;
        }
    }
    assert_eq!(offered, 6);
    assert_eq!(
        c.into_lines(),
        vec!["2021-01-01 00:00:30,b", "garbled,b2", "2021-01-01 00:01:00,c"]
    );
}

#[test]
fn collector_cutoff_with_nanoseconds() {
    // A stamp equal to the cutoff second is older when the cutoff has nanoseconds.
    let mut c = SinceCollector::new(1_609_459_230, 5);
    assert!(!c.offer("2021-01-01 00:00:30,b".to_string()));
    assert!(c.into_lines().is_empty());
}

#[test]
fn since_parameter_forms() {
    let now = (1_700_000_000i64, 123u32);
    assert_eq!(since_cutoff_at("24h", now), Some((1_700_000_000 - 86_400, 123)));
    assert_eq!(since_cutoff_at("2d", now), Some((1_700_000_000 - 172_800, 123)));
    assert_eq!(since_cutoff_at("1w", now), Some((1_700_000_000 - 604_800, 123)));
    assert_eq!(since_cutoff_at("1m", now), Some((1_700_000_000 - 2_592_000, 123)));
    assert_eq!(since_cutoff_at("1y", now), Some((1_700_000_000 - 31_536_000, 123)));
    assert_eq!(since_cutoff_at("-1h", now), Some((1_700_003_600, 123)));
    assert_eq!(since_cutoff_at("1609459200", now), Some((1_609_459_200, 0)));
    assert_eq!(since_cutoff_at("2021-01-01T00:00:00Z", now), Some((1_609_459_200, 0)));
    assert_eq!(since_cutoff_at("2021-01-01T01:00:00.5+01:00", now), Some((1_609_459_200, 500_000_000)));
    assert_eq!(since_cutoff_at("whenever", now), Some((1_700_000_000 - 86_400, 123)));
    assert_eq!(since_cutoff_at("h", now), Some((1_700_000_000 - 86_400, 123)));
    assert_eq!(since_param_cutoff(None, now), Some((1_700_000_000 - 86_400, 123)));
}

#[test]
fn since_parameter_out_of_range() {
    let now = (1_700_000_000i64, 0u32);
    // Spans beyond what chrono represents have no cutoff.
    assert_eq!(since_cutoff_at("9999999999999999h", now), None);
    assert_eq!(since_cutoff_at("99999999999y", now), None);
    // An unrepresentable Unix time falls through to the default.
    assert_eq!(since_cutoff_at("9223372036854775807", now), Some((1_700_000_000 - 86_400, 0)));
}

#[test]
fn process_history_takes_last_lines_then_filters() {
    let lines: Vec<String> = [
        "Timestamp,Process,PID,CPU,RAM,Status",
        "2024-01-01 10:00:00,nginx,100,1.0,2.0,S",
        "",
        "2024-01-01 10:01:00,nginx,200,1.0,2.0,S",
        "2024-01-01 10:02:00,nginx,100,1.5,2.0,S",
        "2024-01-01 10:03:00,redis,7,1.0,2.0,S",
    ]
    .iter()
    .map(|s| s.to_string())
    .collect();
    let all = process_history_lines(lines.clone(), "nginx", "100", 10);
    assert_eq!(all, vec![lines[1].clone(), lines[4].clone()]);
    let recent = process_history_lines(lines.clone(), "nginx", "100", 2);
    assert_eq!(recent, vec![lines[4].clone()]);
    assert!(process_history_lines(lines.clone(), "nginx", "100", 0).is_empty());
    let mut tail = LineTail::new(0);
    tail.push(lines[1].clone());
    assert_eq!(tail.count(), 1);
    assert!(tail.into_lines().is_empty());
}
