use wxauto_desktop::bootstrap::{probe_line, stamp, start_report};
use wxauto_desktop::calendar::{civil_from_days, date_digits, days_from_civil, time_digits, Civil};
use wxauto_desktop::file_log::{
    cleanup_old_logs, day_number, day_stamp, day_stamp_from_number, format_line,
    install_sidecar_file_sink, is_stale_log, time_of_day, write_sidecar_entry, FileSink,
    OpenOutcome, SinkPlan, LOG_KEEP_DAYS,
};
use wxauto_desktop::ui_log::{
    clock_ms, now_ms, now_secs, AppLogEntry, AppLogLevel, AppLogSource, LogRing,
};

fn entry(ts: u64, message: &str) -> AppLogEntry {
    AppLogEntry {
        ts,
        level: AppLogLevel::Info,
        source: AppLogSource::Rust,
        message: message.to_string(),
    }
}

#[test]
fn test_log_ring_evicts_oldest_beyond_capacity() {
    let mut ring = LogRing::new(3);
    for i in 0..5 {
        ring.push(entry(i, &format!("m{i}")));
    }
    let snap = ring.snapshot();
    assert_eq!(snap.len(), 3, "超限后只留 cap 条");
    assert_eq!(snap[0].message, "m2", "最旧的 m0/m1 被弹掉");
    assert_eq!(snap[2].message, "m4");
}

#[test]
fn test_log_ring_snapshot_returns_oldest_first() {
    let mut ring = LogRing::new(10);
    ring.push(AppLogEntry {
        ts: 1,
        level: AppLogLevel::Warn,
        source: AppLogSource::Sidecar,
        message: "先".into(),
    });
    ring.push(AppLogEntry {
        ts: 2,
        level: AppLogLevel::Error,
        source: AppLogSource::Rust,
        message: "后".into(),
    });
    let snap = ring.snapshot();
    assert_eq!(snap.len(), 2);
    assert_eq!(snap[0].message, "先", "旧在前（前端头插展示用）");
    assert_eq!(snap[1].message, "后");
}

#[test]
fn test_log_ring_clear_empties() {
    let mut ring = LogRing::new(10);
    ring.push(entry(1, "x"));
    ring.clear();
    assert!(ring.snapshot().is_empty());
}

#[test]
fn ring_without_room_keeps_the_last() {
    let mut ring = LogRing::new(0);
    ring.push(entry(1, "a"));
    ring.push(entry(2, "b"));
    let snap = ring.snapshot();
    assert_eq!(snap.len(), 1);
    assert_eq!(snap[0].message, "b");
}

#[test]
fn test_app_log_entry_serde_fields_match_frontend_contract() {
    let e = AppLogEntry {
        ts: 1693700000000,
        level: AppLogLevel::Error,
        source: AppLogSource::Sidecar,
        message: "boom".into(),
    };
    let j = e.to_json();
    assert_eq!(j.get("ts").unwrap().as_u64(), Some(1693700000000));
    assert_eq!(j.get_str("level"), Some("error"));
    assert_eq!(j.get_str("source"), Some("sidecar"));
    assert_eq!(j.get_str("message"), Some("boom"));
}

#[test]
fn names_of_levels_and_sources() {
    assert_eq!(AppLogLevel::Error.as_str(), "error");
    assert_eq!(AppLogLevel::Warn.as_str(), "warn");
    assert_eq!(AppLogLevel::Info.as_str(), "info");
    assert_eq!(AppLogLevel::Debug.as_str(), "debug");
    assert_eq!(AppLogLevel::Trace.as_str(), "trace");
    assert_eq!(AppLogSource::Rust.as_str(), "rust");
    assert_eq!(AppLogSource::Sidecar.as_str(), "sidecar");
}

#[test]
fn the_clock() {
    assert!(now_ms() > 1_600_000_000_000);
    assert!(now_secs() > 1_600_000_000);
    assert_eq!(clock_ms(None), 0);
    assert_eq!(clock_ms(Some(5)), 5);
    assert_eq!(clock_ms(Some((1u128 << 64) + 7)), 7);
}

#[test]
fn test_epoch_day_filename() {
    assert_eq!(day_stamp(0), "19700101");
    assert_eq!(day_stamp(1), "19700101");
    assert_eq!(day_stamp(86399), "19700101");
    assert_eq!(day_stamp(86400), "19700102");
}

#[test]
fn dates_of_days() {
    for (days, y, m, d) in [
        (0i64, 1970i64, 1u64, 1u64),
        (-1, 1969, 12, 31),
        (-719_162, 1, 1, 1),
        (58, 1970, 2, 28),
        (59, 1970, 3, 1),
        (789, 1972, 2, 29),
        (11_016, 2000, 2, 29),
        (19_675, 2023, 11, 14),
        (47_540, 2100, 2, 28),
        (47_541, 2100, 3, 1),
        (2_932_896, 9999, 12, 31),
    ] {
        assert_eq!(civil_from_days(days), Civil { year: y, month: m, day: d }, "{days}");
        assert_eq!(days_from_civil(y as u64, m, d), days);
    }
    assert_eq!(day_stamp_from_number(-1), "19691231");
    assert_eq!(day_stamp_from_number(-719_528), "00000101");
    assert_eq!(day_stamp_from_number(-719_529), "-0011231");
    let first = Civil { year: -25252734927764585, month: 6, day: 7 };
    assert_eq!(civil_from_days(i64::MIN), first);
    assert_eq!(date_digits(19_675, "-"), "2023-11-14");
    assert_eq!(day_stamp_from_number(2_932_897), "100000101");
    assert_eq!(time_digits(86_399), "23:59:59");
    assert_eq!(day_number(86_400 * 3 + 5), 3);
    assert_eq!(time_of_day(3_723_999), "01:02:03");
}

#[test]
fn test_stamp_epoch_and_day_boundary() {
    assert_eq!(stamp(0), "1970-01-01 00:00:00");
    assert_eq!(stamp(86_400_000), "1970-01-02 00:00:00");
    assert_eq!(stamp(86_400_000 + 3_723_000), "1970-01-02 01:02:03");
}

#[test]
fn test_bootstrap_report_overwrites_per_startup() {
    let head = start_report(0);
    assert_eq!(head, "[1970-01-01 00:00:00] [probe] ===== 启动 =====\n");
    let line = probe_line(86_400_000, "env WXAUTO_SIDECAR_CMD: 未设置");
    assert!(line.contains("[probe]"), "探测行前缀");
    assert_eq!(line, "[1970-01-02 00:00:00] [probe] env WXAUTO_SIDECAR_CMD: 未设置\n");
}

#[test]
fn test_format_line_shape() {
    let line = format_line(&AppLogEntry {
        ts: 86_400_000 + 3_723_000,
        level: AppLogLevel::Warn,
        source: AppLogSource::Sidecar,
        message: "m".into(),
    });
    assert_eq!(line, "[19700102 01:02:03] [sidecar] [warn] m\n");
}

#[test]
fn test_write_sidecar_entry_noop_when_not_installed() {
    let plan = write_sidecar_entry(
        &None,
        &AppLogEntry {
            ts: 1,
            level: AppLogLevel::Info,
            source: AppLogSource::Sidecar,
            message: "x".into(),
        },
    );
    assert!(matches!(plan, SinkPlan::Skip));
}

#[test]
fn sidecar_log_is_set_up_once() {
    let mut slot = None;
    install_sidecar_file_sink(&mut slot, None);
    assert!(slot.is_none());
    install_sidecar_file_sink(&mut slot, Some("/a".into()));
    install_sidecar_file_sink(&mut slot, Some("/b".into()));
    assert_eq!(slot.as_ref().unwrap().dir(), "/a");
    assert!(matches!(write_sidecar_entry(&slot, &entry(1, "x")), SinkPlan::Open { .. }));
}

#[test]
fn test_format_line_writes_to_daily_file() {
    let mut sink = FileSink::new("/logs".into());
    let e = AppLogEntry {
        ts: 1000,
        level: AppLogLevel::Error,
        source: AppLogSource::Sidecar,
        message: "boom 测试".into(),
    };
    match sink.write(&e) {
        SinkPlan::Open { file_name, day, line } => {
            assert_eq!(file_name, format!("app-{}.log", day_stamp(1)));
            let text = sink.opened(day, line, OpenOutcome::Opened { empty: true }).expect("应写入");
            assert!(text.starts_with('\u{feff}'), "utf-8-sig BOM 首写");
            assert!(text.contains("[sidecar]"), "来源标记");
            assert!(text.contains("[error]"), "级别小写");
            assert!(text.contains("boom 测试"), "消息保留");
        }
        _ => panic!("expected to open a file"),
    }
    match sink.write(&e) {
        SinkPlan::Append(line) => assert!(!line.contains('\u{feff}')),
        _ => panic!("expected to append"),
    }
}

#[test]
fn test_write_failure_silent() {
    for outcome in [OpenOutcome::DirFailed, OpenOutcome::OpenFailed] {
        let mut sink = FileSink::new("/nonexistent-root/x/y".into());
        let e = entry(1, "x");
        match sink.write(&e) {
            SinkPlan::Open { day, line, .. } => assert!(sink.opened(day, line, outcome).is_none()),
            _ => panic!("expected to open a file"),
        }
        assert!(sink.is_dead(), "失败后应置 dead 短路后续");
        assert!(matches!(sink.write(&e), SinkPlan::Skip));
    }
}

#[test]
fn test_rotates_across_day_boundary() {
    let mut sink = FileSink::new("/logs".into());
    for (ts, name, message) in
        [(86_400_000, "app-19700102.log", "day1"), (172_800_000, "app-19700103.log", "day2")]
    {
        match sink.write(&entry(ts, message)) {
            SinkPlan::Open { file_name, day, line } => {
                assert_eq!(file_name, name);
                assert!(line.contains(message));
                let text = sink.opened(day, line.clone(), OpenOutcome::Opened { empty: true });
                assert_eq!(text, Some(format!("\u{feff}{line}")));
            }
            _ => panic!("expected to open a file"),
        }
    }
    let again = sink.write(&entry(172_800_001, "day2"));
    assert!(matches!(again, SinkPlan::Append(_)));
    match sink.write(&entry(86_400_000, "day1")) {
        SinkPlan::Open { day, line, .. } => {
            let text = sink.opened(day, line.clone(), OpenOutcome::Opened { empty: false });
            assert_eq!(text, Some(line), "a file that holds something has its mark already");
        }
        _ => panic!("expected to open a file"),
    }
}

#[test]
fn failed_append_closes_for_good() {
    let mut sink = FileSink::new("/logs".into());
    let e = entry(86_400_000, "x");
    if let SinkPlan::Open { day, line, .. } = sink.write(&e) {
        sink.opened(day, line, OpenOutcome::Opened { empty: true });
    }
    assert!(matches!(sink.write(&e), SinkPlan::Append(_)));
    sink.append_failed();
    assert!(sink.is_dead());
    assert!(matches!(sink.write(&e), SinkPlan::Skip));
    assert!(matches!(sink.write(&entry(172_800_000, "y")), SinkPlan::Skip));
}

#[test]
fn test_cleanup_removes_only_stale_app_logs() {
    let today = day_number(now_secs());
    let old = format!("app-{}.log", day_stamp(0));
    let now_name = format!("app-{}.log", day_stamp(now_secs()));
    let names = vec![old, now_name, "config.json".to_string()];
    assert_eq!(cleanup_old_logs(&names, today, 7), vec![true, false, false]);
    assert_eq!(LOG_KEEP_DAYS, 7);
}

#[test]
fn files_are_kept_for_a_week() {
    let today = 20_000i64;
    for n in 0..20i64 {
        let name = format!("app-{}.log", day_stamp_from_number(today - n));
        assert_eq!(is_stale_log(&name, today, 7), n > 7, "{name}");
    }
    for name in [
        "app-1970010.log",
        "app-197001011.log",
        "app-1970x101.log",
        "App-19700101.log",
        "app-19700101.txt",
        "app-00000101.log",
        "app-19700001.log",
        "",
    ] {
        assert!(!is_stale_log(name, today, 7), "{name}");
    }
}
