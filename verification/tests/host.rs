use buffr_core::hint::{
    Hint, HintAction, HintAlphabet, HintConsoleEvent, HintKind, HintRect, DEFAULT_HINT_ALPHABET,
};
use buffr_core::host::{
    BrowserHost, Effect, HostCall, HostMode, KeyInput, PageAction, Tab, TabId, TabSession,
    TabSummary,
};
use buffr_core::osr::OsrViewState;
use buffr_core::CoreError;
use std::collections::{HashMap, VecDeque};

fn host() -> BrowserHost {
    host_in(HostMode::Osr)
}

fn host_in(mode: HostMode) -> BrowserHost {
    let alphabet = HintAlphabet::from_str(DEFAULT_HINT_ALPHABET).unwrap();
    BrowserHost::new(mode, "https://zero", Some(100), alphabet, (800, 600)).unwrap()
}

/// A host with three tabs, the last one active, and no pending effects.
fn three() -> BrowserHost {
    let mut h = host();
    h.open_tab("https://one", Some(101)).unwrap();
    h.open_tab("https://two", Some(102)).unwrap();
    h.take_effects();
    h
}

fn urls(h: &BrowserHost) -> Vec<String> {
    h.tabs_summary().into_iter().map(|t| t.url).collect()
}

fn ids(h: &BrowserHost) -> Vec<u64> {
    h.tabs_summary().into_iter().map(|t| t.id.0).collect()
}

fn call(tab: u64, call: HostCall) -> Effect {
    Effect::Call { tab: TabId(tab), call }
}

/// Performs effects and remembers which browsers are shown.
#[derive(Default)]
struct Screen {
    shown: HashMap<u64, bool>,
}

impl Screen {
    fn apply(&mut self, h: &mut BrowserHost) {
        for e in h.take_effects() {
            match e {
                Effect::Call { tab, call: HostCall::WasHidden(hidden) } => {
                    self.shown.insert(tab.0, !hidden);
                }
                Effect::Call { tab, call: HostCall::CloseBrowser } => {
                    self.shown.remove(&tab.0);
                }
                _ => {}
            }
        }
        let active = h.active_tab().map(|t| t.id.0);
        for (id, shown) in &self.shown {
            assert_eq!(*shown, Some(*id) == active, "tab {id}");
        }
    }
}

#[test]
fn tab_id_displays_with_prefix() {
    assert_eq!(TabId(0).to_string(), "tab#0");
    assert_eq!(TabId(42).to_string(), "tab#42");
    assert_eq!(TabId(u64::MAX).to_string(), "tab#18446744073709551615");
}

#[test]
fn tab_session_default_is_empty() {
    let s = TabSession::default();
    assert!(s.find_query.is_none());
    assert!(s.hint_session.is_none());
}

#[test]
fn tab_summary_carries_pinned_and_private_flags() {
    let summary = TabSummary {
        id: TabId(7),
        title: "x".into(),
        url: "https://x".into(),
        progress: 1000,
        is_loading: false,
        pinned: true,
        private: true,
    };
    assert_eq!(summary.id, TabId(7));
    assert!(summary.pinned);
    assert!(summary.private);
}

#[test]
fn tab_id_ordering() {
    assert!(TabId(1) < TabId(2));
    assert!(TabId(99) > TabId(7));
}

#[test]
fn display_title_falls_back() {
    let mut t = Tab {
        id: TabId(3),
        browser_id: 1,
        url: "https://x/y".into(),
        title: Some("Title".into()),
        progress: 1000,
        is_loading: false,
        pinned: false,
        session: TabSession::default(),
    };
    assert_eq!(t.display_title(), "Title");
    t.title = Some(String::new());
    assert_eq!(t.display_title(), "x");
    t.title = None;
    for (url, shown) in [
        ("https://x/y", "x"),
        ("https://example.com/a/b?q=1", "example.com"),
        ("https://example.com", "example.com"),
        ("https://example.com?q=/", "example.com"),
        ("https://example.com#top", "example.com"),
        ("http://localhost:3000/", "localhost:3000"),
        ("https://u:p@example.com:8443/x", "example.com:8443"),
        ("https://a@b@example.com", "example.com"),
        ("https://example.com/@me", "example.com"),
        ("https://user@/x", "https"),
        ("about:blank", "about"),
        ("file:///tmp/a.html", "file"),
        ("data:text/html,<a href=\"http://x/\">", "data"),
        ("https://", "https"),
        ("plain", "plain"),
        ("/a:b", "/a:b"),
        (":x", ":x"),
    ] {
        t.url = url.into();
        assert_eq!(t.display_title(), shown, "{url}");
    }
    t.url = String::new();
    assert_eq!(t.display_title(), "tab#3");
}

#[test]
fn host_needs_a_browser() {
    let alphabet = HintAlphabet::from_str("as").unwrap();
    let r = BrowserHost::new(HostMode::Osr, "https://x", None, alphabet, (1, 1));
    assert!(matches!(r, Err(CoreError::CreateBrowserFailed)));
}

#[test]
fn opening_shows_and_counts_the_tab() {
    let mut h = host();
    assert_eq!(
        h.take_effects(),
        vec![
            call(0, HostCall::WasHidden(false)),
            call(0, HostCall::WasResized),
            call(0, HostCall::SetFocus(true)),
            Effect::CountTabOpened,
        ]
    );
    assert_eq!(h.open_tab("https://one", Some(101)), Ok(TabId(1)));
    assert_eq!(
        h.take_effects(),
        vec![
            call(0, HostCall::WasHidden(true)),
            call(0, HostCall::SetFocus(false)),
            call(1, HostCall::WasHidden(false)),
            call(1, HostCall::WasResized),
            call(1, HostCall::SetFocus(true)),
            Effect::CountTabOpened,
        ]
    );
    assert_eq!(h.active_index(), Some(1));
    assert_eq!(h.open_tab_background("https://two", Some(102)), Ok(TabId(2)));
    assert_eq!(
        h.take_effects(),
        vec![call(2, HostCall::WasHidden(true)), Effect::CountTabOpened]
    );
    assert_eq!(h.active_index(), Some(1));
    assert_eq!(h.open_tab("https://x", None), Err(CoreError::CreateBrowserFailed));
    assert_eq!(h.open_tab_background("https://x", None), Err(CoreError::CreateBrowserFailed));
    assert_eq!(h.open_tab_at("https://x", 0, None), Err(CoreError::CreateBrowserFailed));
    assert_eq!(h.tab_count(), 3);
    assert!(h.take_effects().is_empty());
}

#[test]
fn open_tab_at_clamps_and_activates() {
    let mut h = three();
    assert_eq!(h.open_tab_at("https://mid", 1, Some(103)), Ok(TabId(3)));
    assert_eq!(urls(&h), vec!["https://zero", "https://mid", "https://one", "https://two"]);
    assert_eq!(h.active_index(), Some(1));
    assert_eq!(h.open_tab_at("https://end", 99, Some(104)), Ok(TabId(4)));
    assert_eq!(h.active_index(), Some(4));
    assert_eq!(urls(&h)[4], "https://end");
}

#[test]
fn next_and_prev_wrap() {
    let mut h = three();
    h.next_tab();
    assert_eq!(h.active_index(), Some(0));
    h.prev_tab();
    assert_eq!(h.active_index(), Some(2));
    h.prev_tab();
    assert_eq!(h.active_index(), Some(1));
    let mut one = host();
    one.take_effects();
    one.next_tab();
    one.prev_tab();
    assert!(one.take_effects().is_empty());
}

#[test]
fn select_by_id() {
    let mut h = three();
    h.select_tab(TabId(1));
    assert_eq!(h.active_index(), Some(1));
    h.take_effects();
    h.select_tab(TabId(77));
    assert_eq!(h.active_index(), Some(1));
    assert!(h.take_effects().is_empty());
}

#[test]
fn closing_prefers_the_tab_after() {
    let mut h = three();
    h.select_tab(TabId(1));
    assert_eq!(h.close_active(), Ok(true));
    assert_eq!(ids(&h), vec![0, 2]);
    assert_eq!(h.active_index(), Some(1));
    assert_eq!(h.close_active(), Ok(true));
    assert_eq!(h.active_index(), Some(0));
    assert_eq!(h.close_active(), Ok(false));
    assert_eq!(h.active_index(), None);
    assert_eq!(h.close_active(), Err(CoreError::CreateBrowserFailed));
    assert_eq!(h.close_tab(TabId(0)), Ok(true));
    assert_eq!(h.closed_stack_len(), 3);
}

#[test]
fn reopening_restores_position_and_identity() {
    let mut h = three();
    h.toggle_pin_active();
    h.select_tab(TabId(1));
    h.close_active().unwrap();
    assert_eq!(h.reopen_closed_tab(), Ok(Some(TabId(1))));
    assert_eq!(ids(&h), vec![0, 1, 2]);
    assert_eq!(h.active_index(), Some(1));
    assert_eq!(h.closed_stack_len(), 0);
    assert_eq!(h.reopen_closed_tab(), Ok(None));
    assert!(h.tabs_summary()[2].pinned);
}

#[test]
fn blank_tabs_are_closed_for_good() {
    let mut h = host();
    h.open_tab("about:blank", Some(101)).unwrap();
    h.open_tab("", Some(102)).unwrap();
    h.take_effects();
    h.close_active().unwrap();
    assert!(h.take_effects().contains(&call(2, HostCall::CloseBrowser)));
    h.close_active().unwrap();
    assert!(h.take_effects().contains(&call(1, HostCall::CloseBrowser)));
    assert_eq!(h.closed_stack_len(), 0);
}

#[test]
fn closed_stack_evicts_the_oldest() {
    let mut h = host();
    for i in 0..9 {
        h.open_tab(&format!("https://{i}"), Some(200 + i)).unwrap();
    }
    h.take_effects();
    for _ in 0..8 {
        h.close_active().unwrap();
    }
    assert_eq!(h.closed_stack_len(), 8);
    assert!(!h.take_effects().iter().any(|e| matches!(
        e,
        Effect::Call { call: HostCall::CloseBrowser, .. }
    )));
    h.close_active().unwrap();
    assert_eq!(h.closed_stack_len(), 8);
    // The first tab that was closed was number 9.
    assert!(h.take_effects().contains(&call(9, HostCall::CloseBrowser)));
}

#[test]
fn only_the_active_tab_is_shown() {
    let mut screen = Screen::default();
    let mut h = host();
    screen.apply(&mut h);
    for i in 0..5 {
        h.open_tab(&format!("https://{i}"), Some(200 + i)).unwrap();
        screen.apply(&mut h);
    }
    h.open_tab_background("https://bg", Some(300)).unwrap();
    screen.apply(&mut h);
    h.open_tab_at("https://at", 1, Some(301)).unwrap();
    screen.apply(&mut h);
    // A tab before the active one, a tab after it, and the active one.
    h.select_tab(TabId(4));
    screen.apply(&mut h);
    h.close_tab(TabId(0)).unwrap();
    screen.apply(&mut h);
    h.close_tab(TabId(6)).unwrap();
    screen.apply(&mut h);
    h.close_active().unwrap();
    screen.apply(&mut h);
    for _ in 0..3 {
        h.reopen_closed_tab().unwrap();
        screen.apply(&mut h);
    }
    h.move_tab(0, 3);
    screen.apply(&mut h);
    h.next_tab();
    screen.apply(&mut h);
    h.prev_tab();
    screen.apply(&mut h);
}

#[test]
fn moving_keeps_the_active_tab() {
    for active in 0..4u64 {
        for from in 0..6usize {
            for to in 0..6usize {
                let mut h = three();
                h.open_tab("https://three", Some(103)).unwrap();
                h.select_tab(TabId(active));
                h.move_tab(from, to);
                assert_eq!(h.active_tab().unwrap().id, TabId(active));
                let mut sorted = ids(&h);
                sorted.sort();
                assert_eq!(sorted, vec![0, 1, 2, 3]);
            }
        }
    }
    let mut h = three();
    h.move_tab(0, 2);
    assert_eq!(ids(&h), vec![1, 2, 0]);
    h.move_tab(2, 0);
    assert_eq!(ids(&h), vec![0, 1, 2]);
    h.move_tab(9, 0);
    assert_eq!(ids(&h), vec![2, 0, 1]);
}

#[test]
fn duplicate_uses_the_active_url() {
    let mut h = three();
    assert_eq!(h.duplicate_target().unwrap(), "https://two");
    assert_eq!(h.duplicate_active(Some(103)), Ok(TabId(3)));
    assert_eq!(urls(&h)[3], "https://two");
    h.open_tab("", Some(104)).unwrap();
    assert_eq!(h.duplicate_target().unwrap(), "about:blank");
    assert_eq!(h.duplicate_active(None), Err(CoreError::CreateBrowserFailed));
}

#[test]
fn pins() {
    let mut h = three();
    h.toggle_pin_active();
    h.set_pinned(TabId(0), true);
    h.set_pinned(TabId(9), true);
    let pins: Vec<bool> = h.tabs_summary().iter().map(|t| t.pinned).collect();
    assert_eq!(pins, vec![true, false, true]);
    h.toggle_pin_active();
    assert!(!h.active_tab().unwrap().pinned);
}

#[test]
fn address_changes_reach_their_tab() {
    let mut h = three();
    let mut sink: VecDeque<(i32, String)> = VecDeque::new();
    assert!(!h.pump_address_changes(&mut sink));
    sink.push_back((101, "https://a".into()));
    sink.push_back((999, "https://lost".into()));
    sink.push_back((101, "https://b".into()));
    assert!(h.pump_address_changes(&mut sink));
    assert!(sink.is_empty());
    assert_eq!(urls(&h), vec!["https://zero", "https://b", "https://two"]);
    sink.push_back((999, "https://lost".into()));
    assert!(!h.pump_address_changes(&mut sink));
    sink.push_back((101, "https://b".into()));
    assert!(!h.pump_address_changes(&mut sink), "the URL that it already has");
    sink.push_back((101, "https://elsewhere".into()));
    sink.push_back((101, "https://b".into()));
    assert!(!h.pump_address_changes(&mut sink), "there and back");
    assert_eq!(h.record_url(102, "https://c"), Some(TabId(2)));
    assert_eq!(h.active_tab_live_url(), "https://c");
    assert_eq!(h.record_url(999, "https://c"), None);
}

#[test]
fn resize_reaches_every_tab() {
    let mut h = three();
    h.resize(10, 20);
    assert_eq!(
        h.take_effects(),
        vec![
            call(0, HostCall::WasResized),
            call(1, HostCall::WasResized),
            call(2, HostCall::WasResized),
        ]
    );
    let r = h.browser_request();
    assert_eq!((r.width, r.height, r.windowless), (10, 20, true));
    let mut view = OsrViewState::new();
    h.osr_resize(&mut view, 30, 40);
    assert_eq!((view.width, view.height, view.scale), (30, 40, 1000));
    assert_eq!(h.take_effects(), vec![call(2, HostCall::WasResized)]);
    assert_eq!(h.browser_request().width, 30);
}

#[test]
fn input_is_forwarded_off_screen_only() {
    let key = KeyInput {
        kind: 1,
        modifiers: 2,
        windows_key_code: 3,
        native_key_code: 4,
        is_system_key: false,
        character: 97,
        unmodified_character: 97,
        focus_on_editable_field: false,
    };
    let mut h = three();
    h.osr_mouse_move(1, 2, 3);
    h.osr_mouse_click(1, 2, 0, true, 1, 3);
    h.osr_mouse_leave(5);
    h.osr_mouse_wheel(1, 2, 3, 4, 5);
    h.osr_key_event(key);
    h.osr_focus(false);
    assert_eq!(
        h.take_effects(),
        vec![
            call(2, HostCall::MouseMove { x: 1, y: 2, modifiers: 3, leave: false }),
            call(
                2,
                HostCall::MouseClick {
                    x: 1,
                    y: 2,
                    button: 0,
                    mouse_up: true,
                    click_count: 1,
                    modifiers: 3
                }
            ),
            call(2, HostCall::MouseMove { x: 0, y: 0, modifiers: 5, leave: true }),
            call(2, HostCall::MouseWheel { x: 1, y: 2, delta_x: 3, delta_y: 4, modifiers: 5 }),
            call(2, HostCall::Key(key)),
            call(2, HostCall::SetFocus(false)),
        ]
    );
    let mut w = host_in(HostMode::Windowed);
    w.take_effects();
    w.osr_mouse_move(1, 2, 3);
    w.osr_mouse_click(1, 2, 0, true, 1, 3);
    w.osr_mouse_leave(5);
    w.osr_mouse_wheel(1, 2, 3, 4, 5);
    w.osr_key_event(key);
    w.osr_focus(true);
    assert!(w.take_effects().is_empty());
    assert_eq!(w.mode(), HostMode::Windowed);
}

#[test]
fn navigate_trims_and_rejects_blank() {
    let mut h = three();
    assert_eq!(h.navigate("  https://new \n", true), Ok(()));
    assert_eq!(
        h.take_effects(),
        vec![Effect::LoadUrl { tab: TabId(2), url: "https://new".into() }]
    );
    assert_eq!(h.active_tab_live_url(), "https://new");
    assert_eq!(h.navigate(" \t", true), Err(CoreError::InvalidUrl(String::new())));
    assert_eq!(h.navigate("https://x", false), Err(CoreError::CreateBrowserFailed));
    assert_eq!(h.active_tab_live_url(), "https://new");
    assert!(h.take_effects().is_empty());
}

#[test]
fn find_remembers_its_query() {
    let mut h = three();
    h.dispatch(PageAction::FindNext, None);
    assert!(h.take_effects().is_empty());
    h.start_find("rust", true, true);
    h.dispatch(PageAction::FindPrev, None);
    h.start_find("", true, true);
    h.dispatch(PageAction::FindNext, None);
    let find = |forward, find_next| Effect::Find {
        tab: TabId(2),
        query: "rust".into(),
        forward,
        find_next,
    };
    assert_eq!(
        h.take_effects(),
        vec![find(true, false), find(false, true), call(2, HostCall::StopFinding)]
    );
    h.start_find("rust", true, false);
    h.dispatch(PageAction::FindNext, None);
    assert!(h.take_effects().is_empty());
}

fn page_js(code: &str) -> Effect {
    Effect::RunJs {
        tab: TabId(2),
        code: code.into(),
        url: "buffr://page-action".into(),
        line: 0,
    }
}

#[test]
fn dispatch_scrolls() {
    let cases = [
        (PageAction::ScrollUp(3), "window.scrollBy(0, -120);"),
        (PageAction::ScrollDown(1), "window.scrollBy(0, 40);"),
        (PageAction::ScrollLeft(u32::MAX), "window.scrollBy(-171798691800, 0);"),
        (PageAction::ScrollRight(0), "window.scrollBy(0, 0);"),
        (PageAction::ScrollFullPageDown, "window.scrollBy(0, window.innerHeight * 0.9);"),
        (PageAction::ScrollPageUp, "window.scrollBy(0, -window.innerHeight * 0.9);"),
        (PageAction::ScrollHalfPageDown, "window.scrollBy(0, window.innerHeight * 0.5);"),
        (PageAction::ScrollHalfPageUp, "window.scrollBy(0, -window.innerHeight * 0.5);"),
        (PageAction::ScrollTop, "window.scrollTo(0, 0);"),
        (PageAction::ScrollBottom, "window.scrollTo(0, document.body.scrollHeight);"),
        (PageAction::FocusFirstInput, buffr_core::scripts::FOCUS_FIRST_INPUT),
        (PageAction::ExitInsertMode, buffr_core::scripts::EXIT_INSERT),
    ];
    let mut h = three();
    for (action, code) in cases {
        h.dispatch(action, None);
        assert_eq!(h.take_effects(), vec![page_js(code)], "{action:?}");
    }
}

#[test]
fn dispatch_calls_the_active_browser() {
    let cases = [
        (PageAction::HistoryBack, HostCall::GoBack),
        (PageAction::HistoryForward, HostCall::GoForward),
        (PageAction::Reload, HostCall::Reload),
        (PageAction::ReloadHard, HostCall::ReloadIgnoreCache),
        (PageAction::StopLoading, HostCall::StopLoad),
        (PageAction::ZoomIn, HostCall::ZoomIn),
        (PageAction::ZoomOut, HostCall::ZoomOut),
        (PageAction::OpenDevTools, HostCall::ShowDevTools),
        (PageAction::YankUrl, HostCall::YankUrl),
    ];
    let mut h = three();
    for (action, c) in cases {
        h.dispatch(action, None);
        assert_eq!(h.take_effects(), vec![call(2, c)], "{action:?}");
    }
    h.dispatch(PageAction::ZoomReset, None);
    assert_eq!(h.take_effects(), vec![Effect::ResetZoom { tab: Some(TabId(2)) }]);
    h.dispatch(PageAction::ClearCompletedDownloads, None);
    assert_eq!(h.take_effects(), vec![Effect::ClearCompletedDownloads]);
    for action in [PageAction::TabNew, PageAction::TabNewLeft, PageAction::TabNewRight] {
        h.dispatch(action, None);
        assert_eq!(h.take_effects(), vec![Effect::OpenTab { url: "about:blank".into() }]);
    }
}

#[test]
fn dispatch_leaves_chrome_actions_alone() {
    let mut h = three();
    for action in [
        PageAction::Find { forward: true },
        PageAction::PasteUrl,
        PageAction::OpenOmnibar,
        PageAction::OpenCommandLine,
        PageAction::EnterMode,
        PageAction::EnterInsertMode,
    ] {
        h.dispatch(action, Some("https://two"));
        assert!(h.take_effects().is_empty());
    }
    assert_eq!(ids(&h), vec![0, 1, 2]);
}

#[test]
fn dispatch_moves_and_closes_tabs() {
    let mut h = three();
    h.dispatch(PageAction::MoveTabRight, None);
    assert_eq!(ids(&h), vec![0, 1, 2]);
    h.dispatch(PageAction::MoveTabLeft, None);
    assert_eq!(ids(&h), vec![0, 2, 1]);
    assert_eq!(h.active_index(), Some(1));
    h.dispatch(PageAction::MoveTabRight, None);
    assert_eq!(ids(&h), vec![0, 1, 2]);
    h.dispatch(PageAction::TabReorder { from: 0, to: 1 }, None);
    assert_eq!(ids(&h), vec![1, 0, 2]);
    h.dispatch(PageAction::TabNext, None);
    assert_eq!(h.active_index(), Some(0));
    h.dispatch(PageAction::MoveTabLeft, None);
    assert_eq!(ids(&h), vec![1, 0, 2]);
    h.dispatch(PageAction::TabPrev, None);
    h.dispatch(PageAction::PinTab, None);
    assert!(h.active_tab().unwrap().pinned);
    h.dispatch(PageAction::TabClose, None);
    assert_eq!(ids(&h), vec![1, 0]);
    h.dispatch(PageAction::ReopenClosedTab, None);
    assert_eq!(ids(&h), vec![1, 0, 2]);
}

fn hint(label: &str, id: u32) -> Hint {
    Hint {
        label: label.into(),
        element_id: id,
        rect: HintRect { x: 0, y: 0, w: 1, h: 1 },
        kind: HintKind::Link,
    }
}

fn hint_js(code: &str) -> Effect {
    Effect::RunJs { tab: TabId(2), code: code.into(), url: "buffr://hint".into(), line: 1 }
}

fn ready(h: &mut BrowserHost, background: bool) {
    h.enter_hint_mode(background, Some("https://two"));
    h.take_effects();
    let mut sink = Some(HintConsoleEvent::Ready {
        hints: vec![hint("aa", 10), hint("as", 11), hint("d", 12)],
        alphabet: "asd".into(),
    });
    assert!(h.pump_hint_events(&mut sink));
    assert!(sink.is_none());
}

#[test]
fn hint_mode_injects_the_script() {
    let mut h = three();
    assert!(!h.is_hint_mode());
    assert_eq!(h.feed_hint_key('a'), None);
    assert_eq!(h.backspace_hint(), None);
    h.dispatch(PageAction::EnterHintMode, Some("https://two/page"));
    let effects = h.take_effects();
    assert_eq!(effects.len(), 1);
    match &effects[0] {
        Effect::RunJs { tab, code, url, line } => {
            assert_eq!(*tab, TabId(2));
            assert_eq!(url, "https://two/page");
            assert_eq!(*line, 1);
            assert!(code.contains("'asdfghjkl;weruio'"));
            assert!(code.contains("\"aa\",\"as\""));
        }
        other => panic!("{other:?}"),
    }
    let status = h.hint_status().unwrap();
    assert_eq!((status.typed.as_str(), status.match_count, status.background), ("", 0, false));
}

#[test]
fn hint_mode_without_a_frame_is_left_at_once() {
    let mut h = three();
    h.dispatch(PageAction::EnterHintModeBackground, None);
    assert!(!h.is_hint_mode());
    assert_eq!(
        h.take_effects(),
        vec![hint_js("if (window.__buffrHintCancel) window.__buffrHintCancel()")]
    );
}

#[test]
fn hint_keys_filter_and_commit() {
    let mut h = three();
    ready(&mut h, false);
    assert_eq!(h.hint_status().unwrap().match_count, 3);
    assert_eq!(h.feed_hint_key('a'), Some(HintAction::Filter));
    assert_eq!(h.hint_status().unwrap().match_count, 2);
    assert_eq!(
        h.take_effects(),
        vec![hint_js("if (window.__buffrHintFilter) window.__buffrHintFilter(\"a\")")]
    );
    assert_eq!(h.feed_hint_key('s'), Some(HintAction::Click(11)));
    assert_eq!(
        h.take_effects(),
        vec![hint_js("if (window.__buffrHintCommit) window.__buffrHintCommit(11)")]
    );
    assert!(!h.is_hint_mode());
}

#[test]
fn hint_background_commit() {
    let mut h = three();
    ready(&mut h, true);
    assert!(h.hint_status().unwrap().background);
    assert_eq!(h.feed_hint_key('d'), Some(HintAction::OpenInBackground(12)));
    assert!(!h.is_hint_mode());
}

#[test]
fn hint_dead_end_and_backspace() {
    let mut h = three();
    ready(&mut h, false);
    h.feed_hint_key('a');
    h.take_effects();
    assert_eq!(h.backspace_hint(), Some(HintAction::Filter));
    assert_eq!(
        h.take_effects(),
        vec![hint_js("if (window.__buffrHintFilter) window.__buffrHintFilter(\"\")")]
    );
    assert_eq!(h.hint_status().unwrap().match_count, 3);
    assert_eq!(h.backspace_hint(), Some(HintAction::Cancel));
    assert!(!h.is_hint_mode());
    ready(&mut h, false);
    h.take_effects();
    assert_eq!(h.feed_hint_key('"'), Some(HintAction::Cancel));
    assert!(!h.is_hint_mode());
}

#[test]
fn hint_events_without_a_session() {
    let mut h = three();
    let mut sink = None;
    assert!(!h.pump_hint_events(&mut sink));
    let mut sink = Some(HintConsoleEvent::Ready { hints: vec![hint("a", 1)], alphabet: "as".into() });
    assert!(!h.pump_hint_events(&mut sink));
    assert!(sink.is_none());
    assert!(!h.is_hint_mode());
    let mut sink = Some(HintConsoleEvent::Error { message: "boom".into() });
    assert!(!h.pump_hint_events(&mut sink));
    ready(&mut h, false);
    let mut sink = Some(HintConsoleEvent::Error { message: "boom".into() });
    assert!(h.pump_hint_events(&mut sink));
    assert!(!h.is_hint_mode());
    h.enter_hint_mode(false, Some("https://two"));
    let mut sink = Some(HintConsoleEvent::Ready { hints: vec![], alphabet: "as".into() });
    assert!(!h.pump_hint_events(&mut sink), "no target, nothing changed");
    let event = HintConsoleEvent::Ready { hints: vec![hint("a", 1)], alphabet: "as".into() };
    let mut sink = Some(event.clone());
    assert!(h.pump_hint_events(&mut sink));
    let mut sink = Some(event.clone());
    assert!(!h.pump_hint_events(&mut sink), "the same targets again");
    let mut sink = Some(HintConsoleEvent::Ready { hints: vec![hint("a", 2)], alphabet: "as".into() });
    assert!(h.pump_hint_events(&mut sink));
}

#[test]
fn hint_session_stays_with_its_tab() {
    let mut h = three();
    ready(&mut h, false);
    h.next_tab();
    assert!(!h.is_hint_mode());
    h.prev_tab();
    assert!(h.is_hint_mode());
    h.cancel_hint();
    assert!(!h.is_hint_mode());
}

#[test]
fn edit_calls_quote_their_arguments() {
    let mut h = three();
    h.run_edit_apply("f1", "a\"b\\c\n\u{1}\u{8}é\u{2028}");
    h.run_edit_attach("f\t1");
    h.run_edit_focus("f1");
    h.run_edit_cycle(true);
    h.run_edit_cycle(false);
    h.run_edit_detach("");
    let code: Vec<String> = h
        .take_effects()
        .into_iter()
        .map(|e| match e {
            Effect::RunJs { tab, code, url, line } => {
                assert_eq!((tab, url.as_str(), line), (TabId(2), "buffr://edit", 1));
                code
            }
            other => panic!("{other:?}"),
        })
        .collect();
    assert_eq!(
        code,
        vec![
            "if (window.__buffrEditApply) window.__buffrEditApply(\"f1\", \"a\\\"b\\\\c\\n\\u0001\\bé\u{2028}\")",
            "if (window.__buffrEditAttach) window.__buffrEditAttach(\"f\\t1\")",
            "if (window.__buffrEditFocus) window.__buffrEditFocus(\"f1\")",
            "if (window.__buffrCycleInput) window.__buffrCycleInput(true)",
            "if (window.__buffrCycleInput) window.__buffrCycleInput(false)",
            "if (window.__buffrEditDetach) window.__buffrEditDetach(\"\")",
        ]
    );
}

#[test]
fn nothing_is_asked_of_an_empty_host() {
    let mut h = host();
    h.close_active().unwrap();
    h.take_effects();
    h.run_js("x");
    h.stop_find();
    h.toggle_pin_active();
    h.enter_hint_mode(false, Some("https://x"));
    h.cancel_hint();
    h.osr_mouse_move(0, 0, 0);
    assert!(h.take_effects().is_empty());
    assert_eq!(h.navigate("https://x", true), Err(CoreError::CreateBrowserFailed));
    assert!(h.duplicate_target().is_none());
    assert_eq!(h.active_tab_live_url(), "");
    h.dispatch(PageAction::ZoomReset, None);
    assert_eq!(h.take_effects(), vec![Effect::ResetZoom { tab: None }]);
}

#[test]
fn private_hosts_mark_their_tabs() {
    let alphabet = HintAlphabet::from_str("as").unwrap();
    let h = BrowserHost::new_with_options(HostMode::Osr, "https://u/v", Some(1), alphabet, (1, 1), true)
        .unwrap();
    let t = h.active_tab().unwrap();
    assert!(t.private);
    assert_eq!((t.progress, t.is_loading, t.title.as_str()), (1000, false, "u"));
}

#[test]
fn ids_grow_and_are_not_reused() {
    let mut h = three();
    assert_eq!(ids(&h), vec![0, 1, 2]);
    assert_eq!(h.close_tab(TabId(2)), Ok(true));
    assert_eq!(h.open_tab_background("https://three", Some(103)), Ok(TabId(3)));
    assert_eq!(h.open_tab("https://four", Some(104)), Ok(TabId(4)));
    assert_eq!(ids(&h), vec![0, 1, 3, 4]);
}

#[test]
fn switching_keeps_every_tab() {
    let mut h = three();
    h.start_find("needle", true, true);
    h.set_pinned(TabId(1), true);
    h.select_tab(TabId(0));
    h.next_tab();
    h.prev_tab();
    h.prev_tab();
    assert_eq!(h.active_index(), Some(2));
    assert_eq!(urls(&h), vec!["https://zero", "https://one", "https://two"]);
    assert!(h.tabs_summary()[1].pinned);
    h.take_effects();
    h.dispatch(PageAction::FindNext, None);
    assert!(h.take_effects().iter().any(|e| matches!(e, Effect::Find { query, .. } if query == "needle")));
}

#[test]
fn pinned_tabs_can_be_closed() {
    let mut h = three();
    h.set_pinned(TabId(1), true);
    assert_eq!(h.close_tab(TabId(1)), Ok(true));
    assert_eq!(ids(&h), vec![0, 2]);
    assert_eq!(h.active_index(), Some(1));
}

#[test]
fn closing_shuts_only_blank_and_evicted_browsers() {
    fn shut(h: &mut BrowserHost) -> Vec<u64> {
        h.take_effects()
            .into_iter()
            .filter_map(|e| match e {
                Effect::Call { tab, call: HostCall::CloseBrowser } => Some(tab.0),
                _ => None,
            })
            .collect()
    }
    let mut h = host();
    for i in 1..12 {
        h.open_tab(&format!("https://{i}"), Some(200 + i)).unwrap();
    }
    h.open_tab("about:blank", Some(300)).unwrap();
    h.take_effects();
    h.close_tab(TabId(12)).unwrap();
    assert_eq!(shut(&mut h), vec![12]);
    for id in 0..8 {
        h.close_tab(TabId(id)).unwrap();
        assert_eq!(shut(&mut h), Vec::<u64>::new());
    }
    for id in 8..11 {
        h.close_tab(TabId(id)).unwrap();
        assert_eq!(shut(&mut h), vec![id - 8]);
        assert_eq!(h.closed_stack_len(), 8);
    }
}
