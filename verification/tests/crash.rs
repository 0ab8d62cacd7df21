use buffr_core::clock::{days_before, hours_passed, is_earlier, Timestamp};
use buffr_core::crash::{
    build_report, detect_display_server, detect_os, is_report, panic_message, report_file_name,
    CrashFile, CrashReport, CrashReporter, PanicFacts,
};

const NOW: Timestamp = Timestamp { secs: 1_767_225_600, nanos: 5 };

fn report(age_days: i64, label: &str) -> CrashReport {
    CrashReport {
        timestamp: Timestamp { secs: NOW.secs - age_days * 86_400, nanos: NOW.nanos },
        buffr_version: "0.0.1".into(),
        os: "linux x86_64".into(),
        display_server: "x11".into(),
        message: format!("test panic {label}"),
        location: Some("file.rs:1:1".into()),
        backtrace: vec!["frame".into()],
    }
}

fn fixture(age_days: i64, label: &str) -> CrashFile {
    CrashFile { name: format!("test-{label}.json"), report: Some(report(age_days, label)) }
}

fn other(name: &str) -> CrashFile {
    CrashFile { name: name.into(), report: None }
}

#[test]
fn list_empty_when_dir_missing() {
    assert!(CrashReporter::list_crashes(Vec::new()).is_empty());
}

#[test]
fn list_returns_sorted_desc_by_timestamp() {
    let out = CrashReporter::list_crashes(vec![
        fixture(0, "today"),
        fixture(5, "five-days-ago"),
        fixture(1, "yesterday"),
    ]);
    assert_eq!(out.len(), 3);
    assert!(is_earlier(out[1].timestamp, out[0].timestamp));
    assert!(is_earlier(out[2].timestamp, out[1].timestamp));
    assert!(out[0].message.contains("today"));
    assert!(out[2].message.contains("five-days-ago"));
}

#[test]
fn list_skips_non_json_extension() {
    let mut hidden = fixture(0, "hidden");
    hidden.name = "readme.txt".into();
    let out = CrashReporter::list_crashes(vec![fixture(0, "valid"), hidden, other("partial.tmp")]);
    assert_eq!(out.len(), 1);
}

#[test]
fn list_skips_malformed_json_files() {
    let out = CrashReporter::list_crashes(vec![fixture(0, "valid"), other("garbage.json")]);
    assert_eq!(out.len(), 1);
}

#[test]
fn purge_older_than_deletes_only_old_files() {
    let files = vec![fixture(1, "recent"), fixture(60, "old")];
    assert_eq!(CrashReporter::purge_older_than(&files, 30, NOW), vec![1]);
}

#[test]
fn purge_zero_when_dir_missing() {
    assert!(CrashReporter::purge_older_than(&Vec::new(), 30, NOW).is_empty());
}

#[test]
fn purge_keeps_malformed_files() {
    let files = vec![fixture(60, "old-but-valid"), other("malformed.json")];
    assert_eq!(CrashReporter::purge_older_than(&files, 30, NOW), vec![0]);
}

#[test]
fn purge_is_strict_at_the_cutoff() {
    let mut just_older = fixture(30, "older");
    just_older.report.as_mut().unwrap().timestamp.nanos -= 1;
    let mut not_json = fixture(60, "x");
    not_json.name = "x.txt".into();
    let files = vec![fixture(30, "exact"), just_older, not_json, fixture(31, "day")];
    assert_eq!(CrashReporter::purge_older_than(&files, 30, NOW), vec![1, 3]);
}

#[test]
fn listing_keeps_the_order_of_equal_times() {
    let out = CrashReporter::list_crashes(vec![
        fixture(1, "a"),
        fixture(0, "b"),
        fixture(1, "c"),
        fixture(0, "d"),
    ]);
    let labels: Vec<&str> =
        out.iter().map(|r| r.message.rsplit(' ').next().unwrap()).collect();
    assert_eq!(labels, vec!["b", "d", "a", "c"]);
}

#[test]
fn install_disabled_is_noop() {
    let mut r = CrashReporter::new();
    assert!(!r.needs_install(false));
    assert!(!r.install(false, true));
    assert!(r.needs_install(true));
}

#[test]
fn install_happens_once() {
    let mut r = CrashReporter::new();
    assert!(!r.install(true, false));
    assert!(r.needs_install(true));
    assert!(r.install(true, true));
    assert!(!r.needs_install(true));
    assert!(!r.install(true, true));
}

#[test]
fn write_report_round_trip() {
    let name = report_file_name(NOW).unwrap();
    let file = CrashFile {
        name,
        report: Some(CrashReport {
            timestamp: NOW,
            buffr_version: "0.0.1".into(),
            os: "linux x86_64".into(),
            display_server: "x11".into(),
            message: "boom".into(),
            location: Some("src/lib.rs:42:0".into()),
            backtrace: vec!["frame 0".into(), "frame 1".into()],
        }),
    };
    let out = CrashReporter::list_crashes(vec![file]);
    assert_eq!(out.len(), 1);
    assert_eq!(out[0].message, "boom");
    assert_eq!(out[0].location.as_deref(), Some("src/lib.rs:42:0"));
    assert_eq!(out[0].backtrace.len(), 2);
}

#[test]
fn report_names_hold_the_time() {
    assert_eq!(
        report_file_name(Timestamp { secs: 1_767_225_600, nanos: 7_000_000 }).unwrap(),
        "2026-01-01T00-00-00.007Z.json"
    );
    assert_eq!(
        report_file_name(Timestamp { secs: -1, nanos: 0 }).unwrap(),
        "1969-12-31T23-59-59.000Z.json"
    );
    assert_eq!(report_file_name(Timestamp { secs: i64::MAX, nanos: 0 }), None);
    assert_eq!(report_file_name(Timestamp { secs: 0, nanos: 2_000_000_000 }), None);
}

#[test]
fn report_files_agree_with_path_extensions() {
    for name in [
        "a.json", "a.b.json", ".json", "json", "a.", "a.json.", "..json", "a.JSON", "a.jsonx",
        "a..json", "a\\b.json", " .json", "2026-01-01T00-00-00.007Z.json",
    ] {
        let expected =
            std::path::Path::new(name).extension().and_then(|e| e.to_str()) == Some("json");
        assert_eq!(is_report(name), expected, "{name:?}");
    }
}

#[test]
fn reports_are_put_together() {
    let facts = PanicFacts {
        timestamp: NOW,
        version: "1.2.3".into(),
        os: "linux".into(),
        arch: "x86_64".into(),
        session_type: None,
        wayland_display: false,
        x_display: true,
        payload: Some("boom".into()),
        location: Some(("src/a.rs".into(), 12, 3)),
        backtrace: "0: a\r\n1: b\n".into(),
    };
    let r = build_report(&facts);
    assert_eq!(r.timestamp, NOW);
    assert_eq!(r.buffr_version, "1.2.3");
    assert_eq!(r.os, "linux x86_64");
    assert_eq!(r.display_server, "x11");
    assert_eq!(r.message, "boom");
    assert_eq!(r.location.as_deref(), Some("src/a.rs:12:3"));
    assert_eq!(r.backtrace, vec!["0: a", "1: b"]);
    let r = build_report(&PanicFacts { payload: None, location: None, ..facts });
    assert_eq!(r.message, "<non-string panic payload>");
    assert_eq!(r.location, None);
}

#[test]
fn environment_details() {
    assert_eq!(detect_os("macos", "aarch64"), "macos aarch64");
    assert_eq!(detect_display_server(&Some("tty".into()), true, true), "tty");
    assert_eq!(detect_display_server(&Some(String::new()), true, true), "wayland");
    assert_eq!(detect_display_server(&None, false, true), "x11");
    assert_eq!(detect_display_server(&None, false, false), "unknown");
    assert_eq!(panic_message(&Some("x".into())), "x");
}

#[test]
fn clock_agrees_with_chrono() {
    let t = chrono::DateTime::from_timestamp(NOW.secs, NOW.nanos).unwrap();
    for days in [0u32, 1, 30, 365, 700_000] {
        let expected = t - chrono::Duration::days(i64::from(days));
        let got = days_before(NOW, days);
        assert_eq!((got.secs, got.nanos), (expected.timestamp(), expected.timestamp_subsec_nanos()));
    }
    assert_eq!(
        buffr_core::clock::CALENDAR_START,
        chrono::DateTime::<chrono::Utc>::MIN_UTC.timestamp()
    );
    let then = Timestamp { secs: NOW.secs - 7200, nanos: NOW.nanos };
    assert!(!hours_passed(then, NOW, 2));
    assert!(hours_passed(Timestamp { nanos: NOW.nanos - 1, ..then }, NOW, 2));
    assert!(!hours_passed(NOW, then, 0));
}

#[test]
fn leap_seconds_agree_with_chrono() {
    let at = |secs: i64, nanos: u32| Timestamp { secs, nanos };
    assert!(hours_passed(at(43_259, 1_000_000_000), at(46_860, 0), 1));
    assert!(!hours_passed(at(43_259, 1_000_000_000), at(46_859, 0), 1));
    let points = [
        at(0, 0),
        at(43_259, 1_000_000_000),
        at(43_259, 1_500_000_000),
        at(43_260, 0),
        at(46_859, 999_999_999),
        at(46_860, 0),
        at(46_860, 1),
        at(86_399, 1_999_999_999),
        at(86_400, 0),
        at(129_659, 1_000_000_000),
        at(-1, 1_000_000_000),
        at(-43_201, 500),
    ];
    let chrono_of = |t: Timestamp| chrono::DateTime::from_timestamp(t.secs, t.nanos).unwrap();
    for then in points {
        for now in points {
            let passed = chrono_of(now).signed_duration_since(chrono_of(then));
            for hours in [0u32, 1, 12, 24] {
                let expected = passed > chrono::Duration::hours(i64::from(hours));
                assert_eq!(hours_passed(then, now, hours), expected, "{then:?} {now:?} {hours}");
            }
        }
        for days in [0u32, 1, 400] {
            let expected = chrono_of(then) - chrono::Duration::days(i64::from(days));
            let got = days_before(then, days);
            assert_eq!(
                (got.secs, got.nanos),
                (expected.timestamp(), expected.timestamp_subsec_nanos())
            );
        }
    }
}
