use buffr_core::download_notice::DownloadNoticeKind;
use buffr_core::handlers::{
    before_download, decode_transition_raw, download_tick, permission_step, sanitise_filename,
    Decision, DownloadPolicy, DownloadProgress, DownloadTick, PendingTransitions, PermissionStep,
    Transition, TT_FORM_SUBMIT, TT_GENERATED, TT_KEYWORD, TT_KEYWORD_GENERATED, TT_LINK, TT_RELOAD,
};
use buffr_core::platform::Platform;
use cef::sys::cef_transition_type_t as T;

fn raw(source: T) -> u32 {
    source as u32
}

fn raw_flagged(source: T, flag: T) -> u32 {
    source as u32 | flag as u32
}

#[test]
fn transition_constants_match_the_runtime() {
    assert_eq!(raw(T::TT_LINK), TT_LINK);
    assert_eq!(raw(T::TT_GENERATED), TT_GENERATED);
    assert_eq!(raw(T::TT_FORM_SUBMIT), TT_FORM_SUBMIT);
    assert_eq!(raw(T::TT_RELOAD), TT_RELOAD);
    assert_eq!(raw(T::TT_KEYWORD), TT_KEYWORD);
    assert_eq!(raw(T::TT_KEYWORD_GENERATED), TT_KEYWORD_GENERATED);
}

#[test]
fn decode_transition_link() {
    assert_eq!(decode_transition_raw(raw(T::TT_LINK)), Transition::Link);
}

#[test]
fn decode_transition_reload() {
    assert_eq!(decode_transition_raw(raw(T::TT_RELOAD)), Transition::Reload);
}

#[test]
fn decode_transition_form_submit() {
    assert_eq!(decode_transition_raw(raw(T::TT_FORM_SUBMIT)), Transition::FormSubmit);
}

#[test]
fn decode_transition_generated_variants() {
    assert_eq!(decode_transition_raw(raw(T::TT_GENERATED)), Transition::Generated);
    assert_eq!(decode_transition_raw(raw(T::TT_KEYWORD)), Transition::Generated);
    assert_eq!(decode_transition_raw(raw(T::TT_KEYWORD_GENERATED)), Transition::Generated);
}

#[test]
fn decode_transition_other_variants() {
    assert_eq!(decode_transition_raw(raw(T::TT_EXPLICIT)), Transition::Other);
    assert_eq!(decode_transition_raw(raw(T::TT_AUTO_TOPLEVEL)), Transition::Other);
    assert_eq!(decode_transition_raw(raw(T::TT_AUTO_BOOKMARK)), Transition::Other);
    assert_eq!(decode_transition_raw(raw(T::TT_AUTO_SUBFRAME)), Transition::Other);
    assert_eq!(decode_transition_raw(raw(T::TT_MANUAL_SUBFRAME)), Transition::Other);
}

#[test]
fn decode_transition_flag_bits_stripped() {
    assert_eq!(
        decode_transition_raw(raw_flagged(T::TT_LINK, T::TT_FORWARD_BACK_FLAG)),
        Transition::Link
    );
    assert_eq!(
        decode_transition_raw(raw_flagged(T::TT_RELOAD, T::TT_DIRECT_LOAD_FLAG)),
        Transition::Reload
    );
}

#[test]
fn sanitise_filename_strips_path() {
    assert_eq!(sanitise_filename(Platform::Linux, "../../etc/passwd"), "passwd");
    assert_eq!(sanitise_filename(Platform::Linux, "/tmp/foo.zip"), "foo.zip");
    assert_eq!(sanitise_filename(Platform::Linux, "clean.txt"), "clean.txt");
}

#[test]
fn sanitise_filename_empty_falls_back() {
    assert_eq!(sanitise_filename(Platform::Linux, ""), "download");
    assert_eq!(sanitise_filename(Platform::Linux, "   "), "download");
    assert_eq!(sanitise_filename(Platform::Linux, "/"), "download");
}

#[test]
fn sanitise_filename_agrees_with_paths() {
    for name in [
        "a/b", "a/b/", "a/b//", "a/./b", "a/b/.", "a/b/./", "a/..", "..", ".", "./", "/.", "//",
        ".hidden", "a/.hidden", "...", "a/...", " spaced name ", "a/ b ", "ünï/cödé", "..a", "a..",
    ] {
        let expected = std::path::Path::new(name.trim())
            .file_name()
            .map(|s| s.to_string_lossy().into_owned())
            .unwrap_or_else(|| "download".to_string());
        assert_eq!(sanitise_filename(Platform::Linux, name), expected, "{name:?}");
    }
}

#[test]
fn sanitise_filename_knows_the_platform() {
    for (name, expected) in [
        (r"a\b", "b"),
        (r"..\..\windows\system.ini", "system.ini"),
        (r"a/b\c/d.txt", "d.txt"),
        (r"a\b\.\", "b"),
        (r"a\..", "download"),
        (r"C:\dir\f.txt", "f.txt"),
        ("C:f.txt", "f.txt"),
        ("C:", "download"),
        (r"\f", "f"),
        (r"\\server\share\f.txt", "f.txt"),
        (r"\\server\share", "download"),
        ("//server/share/", "download"),
        (r"\\server", "server"),
        (r"\\.\COM1", "download"),
        (r"\\.\COM1\f", "f"),
        (r"\\?\C:\dir\f.txt", "f.txt"),
        (r"\\?\C:", "download"),
        (r"\\?\pictures", "download"),
        (r"\\?\pictures\a/b", "a/b"),
        (r"\\?\pictures\a\.", "download"),
        (r"\\?\UNC\server\share", "download"),
        (r"\\?\UNC\server\share\f", "f"),
        ("plain.txt", "plain.txt"),
    ] {
        assert_eq!(sanitise_filename(Platform::Windows, name), expected, "{name}");
    }
    assert_eq!(sanitise_filename(Platform::Linux, r"a\b"), r"a\b");
    assert_eq!(sanitise_filename(Platform::MacOs, "C:f.txt"), "C:f.txt");
}

#[test]
fn transitions_are_reported_once() {
    let mut p = PendingTransitions::new();
    p.load_started(1, true, TT_RELOAD);
    p.load_started(1, false, TT_FORM_SUBMIT);
    p.load_started(2, true, TT_FORM_SUBMIT);
    assert_eq!(p.load_ended(Some(1)), Transition::Reload);
    assert_eq!(p.load_ended(Some(1)), Transition::Link);
    assert_eq!(p.load_ended(None), Transition::Link);
    assert_eq!(p.load_ended(Some(2)), Transition::FormSubmit);
}

const SILENT: DownloadPolicy = DownloadPolicy {
    ask_each_time: false,
    show_notifications: true,
    open_on_finish: false,
};

#[test]
fn download_start() {
    let d = before_download(SILENT, "a.zip", "", 0, "/dl/a.zip", 5);
    assert_eq!((d.mime, d.total, d.show_dialog), (None, None, false));
    let n = d.notice.unwrap();
    assert_eq!(n.kind, DownloadNoticeKind::Started);
    assert_eq!((n.filename.as_str(), n.path.as_str(), n.created_at), ("a.zip", "/dl/a.zip", 5));
    let ask = DownloadPolicy { ask_each_time: true, ..SILENT };
    let d = before_download(ask, "a.zip", "text/html", 7, "/dl/a.zip", 5);
    assert_eq!((d.mime.as_deref(), d.total, d.show_dialog), (Some("text/html"), Some(7), true));
    assert!(d.notice.is_none());
    let quiet = DownloadPolicy { show_notifications: false, ..SILENT };
    assert!(before_download(quiet, "a", "", -1, "", 0).notice.is_none());
}

fn progress() -> DownloadProgress {
    DownloadProgress {
        received: 10,
        total: 100,
        complete: false,
        canceled: false,
        interrupted: false,
        full_path: "/dl/a.zip".into(),
        interrupt_code: "NetworkTimeout".into(),
    }
}

#[test]
fn download_progress_and_end() {
    assert_eq!(
        download_tick(SILENT, true, "a.zip", &progress(), 9),
        DownloadTick::Progress { received: 10, total: Some(100) }
    );
    let unknown = DownloadProgress { received: -1, total: 0, ..progress() };
    assert_eq!(
        download_tick(SILENT, true, "a.zip", &unknown, 9),
        DownloadTick::Progress { received: 0, total: None }
    );
    let all = DownloadProgress { complete: true, canceled: true, interrupted: true, ..progress() };
    assert_eq!(download_tick(SILENT, false, "a.zip", &all, 9), DownloadTick::Ignore);
    match download_tick(SILENT, true, "a.zip", &all, 9) {
        DownloadTick::Completed { path, notice, open } => {
            assert_eq!(path, "/dl/a.zip");
            assert_eq!(notice.unwrap().kind, DownloadNoticeKind::Completed);
            assert!(!open);
        }
        other => panic!("{other:?}"),
    }
    let open = DownloadPolicy { open_on_finish: true, ..SILENT };
    assert!(matches!(
        download_tick(open, true, "a", &all, 9),
        DownloadTick::Completed { open: true, .. }
    ));
    let no_path = DownloadProgress { complete: true, full_path: String::new(), ..progress() };
    assert!(matches!(
        download_tick(open, true, "a", &no_path, 9),
        DownloadTick::Completed { open: false, .. }
    ));
    let both = DownloadProgress { complete: false, ..all };
    assert_eq!(download_tick(SILENT, true, "a", &both, 9), DownloadTick::Canceled);
    let failed = DownloadProgress { canceled: false, ..both };
    match download_tick(SILENT, true, "a.zip", &failed, 9) {
        DownloadTick::Failed { reason, notice } => {
            assert_eq!(reason, "interrupted (code NetworkTimeout)");
            let n = notice.unwrap();
            assert_eq!(n.kind, DownloadNoticeKind::Failed);
            assert_eq!((n.filename.as_str(), n.path.as_str(), n.created_at), ("a.zip", "", 9));
        }
        other => panic!("{other:?}"),
    }
}

#[test]
fn permission_steps() {
    assert_eq!(permission_step(false, Ok(Some(Decision::Allow))), PermissionStep::Dismiss);
    assert_eq!(permission_step(true, Ok(Some(Decision::Allow))), PermissionStep::Allow);
    assert_eq!(permission_step(true, Ok(Some(Decision::Deny))), PermissionStep::Deny);
    assert_eq!(permission_step(true, Ok(None)), PermissionStep::Ask);
    assert_eq!(permission_step(true, Err(())), PermissionStep::Ask);
}
