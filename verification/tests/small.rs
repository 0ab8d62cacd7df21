use buffr_core::cursor::CursorState;
use buffr_core::download_notice::{
    expire_stale, new_queue, peek_front, pop_front, push, queue_len, DownloadNotice,
    DownloadNoticeKind, NANOS_PER_SEC,
};
use buffr_core::favicon::{
    drain_favicon_updates, favicon_is_enabled, new_favicon_enabled, new_favicon_sink,
    set_favicon_enabled, FaviconUpdate,
};
use buffr_core::find::{find_result, new_sink, store_latest, take_latest, FindResult};
use buffr_core::{drain_popup_urls, new_popup_queue, version, CoreError};

// ---- find ---------------------------------------------------------------

#[test]
fn take_latest_empty_sink_returns_none() {
    let mut sink = new_sink();
    assert_eq!(take_latest(&mut sink), None);
}

#[test]
fn take_latest_consumes_last_write() {
    let mut sink = new_sink();
    store_latest(
        &mut sink,
        FindResult {
            count: 3,
            current: 1,
            final_update: false,
        },
    );
    let r = take_latest(&mut sink).expect("sink populated");
    assert_eq!(r.count, 3);
    assert_eq!(r.current, 1);
    assert!(!r.final_update);
    assert_eq!(take_latest(&mut sink), None);
}

#[test]
fn writes_overwrite_old_unread_result() {
    let mut sink = new_sink();
    store_latest(
        &mut sink,
        FindResult {
            count: 1,
            current: 1,
            final_update: false,
        },
    );
    store_latest(
        &mut sink,
        FindResult {
            count: 5,
            current: 2,
            final_update: true,
        },
    );
    let r = take_latest(&mut sink).unwrap();
    assert_eq!(r.count, 5);
    assert_eq!(r.current, 2);
    assert!(r.final_update);
}

#[test]
fn negative_find_numbers_count_as_zero() {
    let r = find_result(-1, i32::MIN, true);
    assert_eq!(r, FindResult { count: 0, current: 0, final_update: true });
    let r = find_result(7, 3, false);
    assert_eq!(r, FindResult { count: 7, current: 3, final_update: false });
}

// ---- download notices ---------------------------------------------------

const NOW: u64 = 100 * NANOS_PER_SEC;

fn notice(kind: DownloadNoticeKind, name: &str, created_at: u64) -> DownloadNotice {
    DownloadNotice {
        kind,
        filename: name.into(),
        path: format!("/tmp/{name}"),
        created_at,
    }
}

#[test]
fn queue_starts_empty() {
    let mut q = new_queue();
    assert_eq!(queue_len(&q), 0);
    assert!(peek_front(&q).is_none());
    assert!(pop_front(&mut q).is_none());
}

#[test]
fn push_and_peek_and_pop() {
    let mut q = new_queue();
    push(&mut q, notice(DownloadNoticeKind::Started, "file.txt", NOW));
    assert_eq!(queue_len(&q), 1);
    let n = peek_front(&q).unwrap();
    assert_eq!(n.filename, "file.txt");
    assert_eq!(queue_len(&q), 1);
    let n2 = pop_front(&mut q).unwrap();
    assert_eq!(n2.filename, "file.txt");
    assert_eq!(queue_len(&q), 0);
}

#[test]
fn expire_stale_drops_old_notices() {
    let mut q = new_queue();
    push(
        &mut q,
        DownloadNotice {
            kind: DownloadNoticeKind::Completed,
            filename: "old.zip".into(),
            path: "/tmp/old.zip".into(),
            created_at: NOW - 10 * NANOS_PER_SEC,
        },
    );
    push(
        &mut q,
        DownloadNotice {
            kind: DownloadNoticeKind::Started,
            filename: "fresh.zip".into(),
            path: String::new(),
            created_at: NOW,
        },
    );
    assert_eq!(queue_len(&q), 2);
    let dropped = expire_stale(&mut q, NOW);
    assert_eq!(dropped, 1);
    assert_eq!(queue_len(&q), 1);
    let n = peek_front(&q).unwrap();
    assert_eq!(n.filename, "fresh.zip");
    assert_eq!(expire_stale(&mut q, NOW), 0);
}

#[test]
fn started_expiry_shorter_than_completed() {
    assert!(
        DownloadNoticeKind::Started.expiry_duration()
            < DownloadNoticeKind::Completed.expiry_duration()
    );
    assert_eq!(DownloadNoticeKind::Started.expiry_duration(), 2_000_000_000);
    assert_eq!(DownloadNoticeKind::Failed.expiry_duration(), 4_000_000_000);
}

#[test]
fn notice_expires_strictly_after_its_time() {
    let n = notice(DownloadNoticeKind::Started, "a", NOW);
    assert!(!n.is_expired(NOW + 2_000_000_000));
    assert!(n.is_expired(NOW + 2_000_000_001));
    assert!(!n.is_expired(0));
}

#[test]
fn expiry_reaches_past_fresh_notices() {
    let mut q = new_queue();
    push(&mut q, notice(DownloadNoticeKind::Failed, "fresh", NOW));
    push(&mut q, notice(DownloadNoticeKind::Started, "old", NOW - 3 * NANOS_PER_SEC));
    push(&mut q, notice(DownloadNoticeKind::Failed, "kept", NOW - 3 * NANOS_PER_SEC));
    assert_eq!(expire_stale(&mut q, NOW), 1);
    assert_eq!(pop_front(&mut q).unwrap().filename, "fresh");
    assert_eq!(pop_front(&mut q).unwrap().filename, "kept");
}

// ---- cursor, favicons, popups -------------------------------------------

#[test]
fn cursor_request_is_read_once() {
    let mut c = CursorState::new();
    assert_eq!(c.take(), None);
    c.store(7, 3);
    c.store(8, 2);
    assert_eq!(c.take(), Some((8, 2)));
    assert_eq!(c.take(), None);
    assert_eq!(CursorState::default(), CursorState::new());
}

#[test]
fn favicons_come_out_oldest_first() {
    let mut sink = new_favicon_sink();
    for id in [3, 1, 2] {
        sink.push_back(FaviconUpdate { browser_id: id, width: 1, height: 1, pixels: vec![0] });
    }
    let ids: Vec<i32> = drain_favicon_updates(&mut sink).iter().map(|u| u.browser_id).collect();
    assert_eq!(ids, vec![3, 1, 2]);
    assert!(drain_favicon_updates(&mut sink).is_empty());
}

#[test]
fn favicon_switch() {
    let mut flag = new_favicon_enabled(true);
    assert!(favicon_is_enabled(&flag));
    set_favicon_enabled(&mut flag, false);
    assert!(!favicon_is_enabled(&flag));
}

#[test]
fn popup_urls_come_out_oldest_first() {
    let mut q = new_popup_queue();
    q.push_back("https://a".to_string());
    q.push_back("https://b".to_string());
    assert_eq!(drain_popup_urls(&mut q), vec!["https://a", "https://b"]);
    assert!(drain_popup_urls(&mut q).is_empty());
}

#[test]
fn error_messages() {
    assert_eq!(CoreError::InitFailed.message(), "cef initialize() returned a failure code");
    assert_eq!(CoreError::NoProjectDirs.message(), "could not resolve project directories");
    assert_eq!(CoreError::InvalidUrl("x".into()).message(), "invalid url: x");
    assert_eq!(CoreError::CreateBrowserFailed.message(), "creating browser failed");
}

#[test]
fn version_is_the_package_version() {
    assert_eq!(version(), "0.3.0");
}

#[test]
fn cursor_starts_at_the_default_pointer_of_no_browser() {
    let mut read = CursorState::default();
    read.store(-1, 0);
    assert_ne!(read, CursorState::new());
    assert_eq!(read.take(), Some((-1, 0)));
    assert_eq!(read, CursorState::new());
    read.store(7, 2);
    assert_eq!(read.take(), Some((7, 2)));
    assert_ne!(read, CursorState::new());
}
