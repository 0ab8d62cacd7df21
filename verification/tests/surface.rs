use buffr_core::host::HostMode;
use buffr_core::js::{json_string_array, json_string_inner, json_string_literal};
use buffr_core::new_tab::{PageReader, NEW_TAB_HTML, NEW_TAB_URL};
use buffr_core::open_finder::{command_for, open_path, Arg, Spawn};
use buffr_core::osr::{OsrFrame, OsrViewState, PaintRouter, PaintTarget};
use buffr_core::platform::{command_line_switches, host_mode, Platform, WindowHandle};
use buffr_core::scripts::{EDIT_JS, MEDIA_PROBE_JS};
use buffr_core::text::{
    find_after, is_white_space, join_words, push_decimal, push_signed, replace_all, split_lines,
    split_words, starts_with, trim,
};
use std::sync::Mutex;

// ---- off-screen frames --------------------------------------------------

#[test]
fn frames_start_black() {
    let f = OsrFrame::new(3, 2);
    assert_eq!(f.pixels, vec![0u8; 24]);
    assert_eq!((f.width, f.height, f.generation), (3, 2, 0));
}

#[test]
fn paint_replaces_the_frame() {
    let mut f = OsrFrame::new(1, 1);
    assert!(f.paint(1, 1, &[1, 2, 3, 4]));
    assert_eq!((f.pixels.clone(), f.generation), (vec![1, 2, 3, 4], 1));
    assert!(f.paint(2, 1, &[9; 8]));
    assert_eq!((f.width, f.height, f.generation), (2, 1, 2));
    // The buffer was taken out in between.
    f.pixels = Vec::new();
    assert!(f.paint(2, 1, &[7; 8]));
    assert_eq!(f.pixels, vec![7; 8]);
    assert!(!f.paint(2, 2, &[7; 8]));
    assert!(!f.paint(u32::MAX, u32::MAX, &[]));
    assert_eq!(f.generation, 3);
    f.generation = u64::MAX;
    assert!(f.paint(0, 0, &[]));
    assert_eq!(f.generation, 0);
}

#[test]
fn viewport_defaults() {
    let v = OsrViewState::default();
    assert_eq!((v.width, v.height, v.scale, v.frame_rate_hz), (1280, 800, 1000, 60));
}

#[test]
fn paint_routes_by_browser() {
    let main = OsrViewState::new();
    let popup = OsrViewState { width: 5, height: 6, ..main };
    let mut r = PaintRouter::new();
    assert_eq!(r.resolve_frame_view(None), None);
    assert_eq!(r.resolve_dims(None, main), (1280, 800));
    assert_eq!(r.resolve_dims(Some(7), main), (1280, 800));
    r.insert_popup(8, popup);
    assert_eq!(r.resolve_dims(Some(8), main), (5, 6));
    assert_eq!(r.resolve_dims(Some(9), main), (1280, 800));
    assert_eq!(r.resolve_frame_view(Some(7)), Some(PaintTarget::Main));
    assert_eq!(r.resolve_frame_view(Some(8)), Some(PaintTarget::Popup(8)));
    assert_eq!(r.resolve_frame_view(Some(9)), None);
    r.remove_popup(8);
    assert_eq!(r.resolve_frame_view(Some(8)), None);
    let mut fresh = PaintRouter::new();
    assert_eq!(fresh.resolve_frame_view(Some(3)), Some(PaintTarget::Main));
    assert_eq!(fresh.resolve_frame_view(Some(4)), None);
}

// ---- new-tab page -------------------------------------------------------

#[test]
fn reads_deliver_the_page_once() {
    assert_eq!(NEW_TAB_URL, "buffr://new");
    let page = NEW_TAB_HTML.as_bytes();
    let mut r = PageReader::new(page);
    assert_eq!(r.len(), page.len());
    assert!(r.read(0).is_empty());
    assert!(r.read(-5).is_empty());
    let mut out = Vec::new();
    loop {
        let chunk = r.read(100);
        if chunk.is_empty() {
            break;
        }
        assert!(chunk.len() <= 100);
        out.extend_from_slice(chunk);
    }
    assert_eq!(out, page);
    assert!(r.read(i32::MAX).is_empty());
}

// ---- launcher -----------------------------------------------------------

#[derive(Default)]
struct RecordSpawn {
    calls: Mutex<Vec<(String, Vec<Arg<String>>)>>,
}

impl Spawn<String> for RecordSpawn {
    fn spawn(&self, program: &'static str, args: &Vec<Arg<String>>) -> Result<(), String> {
        self.calls.lock().unwrap().push((program.to_string(), args.clone()));
        Ok(())
    }
}

struct FailSpawn;

impl Spawn<String> for FailSpawn {
    fn spawn(&self, _program: &'static str, _args: &Vec<Arg<String>>) -> Result<(), String> {
        Err("boom".into())
    }
}

#[test]
fn open_path_invokes_spawn() {
    let s = RecordSpawn::default();
    assert_eq!(open_path(&s, Platform::Linux, "/tmp/foo".to_string()), None);
    assert_eq!(open_path(&s, Platform::MacOs, "/tmp/foo".to_string()), None);
    assert_eq!(open_path(&s, Platform::Windows, "/tmp/foo".to_string()), None);
    let calls = s.calls.lock().unwrap();
    assert_eq!(calls.len(), 3);
    assert_eq!(calls[0], ("xdg-open".to_string(), vec![Arg::Path("/tmp/foo".to_string())]));
    assert_eq!(calls[1], ("open".to_string(), vec![Arg::Path("/tmp/foo".to_string())]));
    let (prog, args) = &calls[2];
    assert_eq!(prog, "cmd");
    assert_eq!(args.len(), 4);
    assert_eq!(args[0], Arg::Text("/c"));
    assert_eq!(args[1], Arg::Text("start"));
    assert_eq!(args[2], Arg::Text(""));
}

#[test]
fn open_path_swallows_spawn_failure() {
    assert_eq!(
        open_path(&FailSpawn, Platform::Linux, "/tmp/foo".to_string()),
        Some("boom".to_string())
    );
}

#[test]
fn command_for_returns_path_in_argv() {
    for platform in [Platform::Linux, Platform::MacOs, Platform::Windows] {
        let (_prog, args) = command_for(platform, "/tmp/foo");
        assert!(args.iter().any(|a| *a == Arg::Path("/tmp/foo")));
    }
}

// ---- platform -----------------------------------------------------------

#[test]
fn host_modes() {
    assert_eq!(host_mode(Platform::Linux, WindowHandle::Other), HostMode::Osr);
    assert_eq!(host_mode(Platform::Linux, WindowHandle::AppKit), HostMode::Osr);
    assert_eq!(host_mode(Platform::MacOs, WindowHandle::AppKit), HostMode::Windowed);
    assert_eq!(host_mode(Platform::MacOs, WindowHandle::Win32), HostMode::Osr);
    assert_eq!(host_mode(Platform::Windows, WindowHandle::Win32), HostMode::Windowed);
    assert_eq!(host_mode(Platform::Windows, WindowHandle::Other), HostMode::Osr);
}

#[test]
fn switches_in_order() {
    let names: Vec<&str> = command_line_switches(true).iter().map(|s| s.name).collect();
    assert_eq!(
        names,
        vec![
            "enable-features",
            "enable-gpu",
            "enable-gpu-compositing",
            "enable-gpu-rasterization",
            "enable-zero-copy",
            "ignore-gpu-blocklist",
            "no-sandbox",
            "force-renderer-accessibility",
        ]
    );
    let plain = command_line_switches(false);
    assert_eq!(plain.len(), 7);
    assert_eq!(
        plain[0].value,
        Some(
            "UseOzonePlatform,VaapiVideoDecodeLinuxGL,AcceleratedVideoDecodeLinuxGL,\
             VaapiVideoEncoder,CanvasOopRasterization"
        )
    );
    assert!(plain[1..].iter().all(|s| s.value.is_none()));
}

// ---- literals -----------------------------------------------------------

#[test]
fn literals_escape_what_they_must() {
    assert_eq!(json_string_inner("a'b\"c\\d\n\r\t"), "a\\'b\\u0022c\\\\d\\n\\r\\t");
    assert_eq!(json_string_literal("a'b\"c"), "\"a'b\\\"c\"");
    assert_eq!(json_string_literal("\u{0}\u{7f}\u{ffff}"), "\"\\u0000\\u007f\\uffff\"");
    assert_eq!(json_string_inner("\u{10000}\u{10ffff}"), "\\ud800\\udc00\\udbff\\udfff");
    assert_eq!(json_string_array(&[]), "[]");
    assert_eq!(json_string_array(&["a".to_string(), "\"".to_string()]), "[\"a\",\"\\\"\"]");
}

#[test]
fn literals_read_back_as_json() {
    for s in ["", "plain", "q\"uote", "back\\slash", "tab\tnl\n", "ünïcödé 😀", "\u{1}\u{2028}"] {
        let back: String = serde_json::from_str(&json_string_literal(s)).unwrap();
        assert_eq!(back, s);
    }
}

#[test]
fn scripts_are_ascii() {
    assert!(EDIT_JS.is_ascii());
    assert!(MEDIA_PROBE_JS.contains("window.__buffr_media_active = ms || fsv;"));
}

// ---- text ---------------------------------------------------------------

#[test]
fn white_space_agrees_with_std() {
    for n in 0..=0x10ffffu32 {
        if let Some(c) = char::from_u32(n) {
            assert_eq!(is_white_space(c), c.is_whitespace(), "{n:x}");
        }
    }
}

#[test]
fn text_routines_agree_with_std() {
    for s in ["", " ", "a", " a  b\t\nc ", "\u{a0}x\u{3000}", "aXbXXc", "no marks", "\r\n"] {
        assert_eq!(trim(s), s.trim());
        assert_eq!(split_words(s), s.split_whitespace().collect::<Vec<_>>());
        assert_eq!(replace_all(s, "X", "yy"), s.replace("X", "yy"));
        assert_eq!(replace_all(s, "XX", ""), s.replace("XX", ""));
        assert_eq!(starts_with(s, "a"), s.starts_with("a"));
        assert_eq!(find_after(s, "X"), s.split_once('X').map(|(_, t)| t.to_string()));
        assert_eq!(split_lines(s), s.lines().collect::<Vec<_>>());
    }
    for s in ["a\nb", "a\r\nb\n", "\n\n", "a\r", "a\r\r\nb", "\n", "x\n\r\n"] {
        assert_eq!(split_lines(s), s.lines().collect::<Vec<_>>(), "{s:?}");
    }
    let words: Vec<String> = vec!["a".into(), "b".into(), "c".into()];
    assert_eq!(join_words(&words, 0), "a b c");
    assert_eq!(join_words(&words, 2), "c");
    assert_eq!(join_words(&words, 3), "");
}

#[test]
fn numbers_in_decimal() {
    for n in [0u64, 7, 10, 99, 100, 12345, u64::MAX] {
        let mut s = String::from("n=");
        push_decimal(&mut s, n);
        assert_eq!(s, format!("n={n}"));
    }
    for n in [0i64, -1, 42, -1000, i64::MAX, i64::MIN + 1] {
        let mut s = String::new();
        push_signed(&mut s, n);
        assert_eq!(s, n.to_string());
    }
}
