//! The browser host: a strip of tabs, one browser each.
//!
//! The host decides and the embedder performs. Each operation updates the
//! strip and queues [`Effect`]s, the requests that the embedder carries out on
//! the browsers in order, so nothing here touches a browser itself. Switching
//! tabs hides the previous browser and shows and focuses the next; only the
//! active tab is visible. What each operation does is stated over
//! [`HostState`], the model in [`crate::strip`].
use crate::error::CoreError;
use crate::hint::{
    build_inject_script, hint_views, inject_script, law_backspace_keeps_consistency,
    law_feed_keeps_consistency, law_started_is_consistent, take_hint_event, HintAction,
    HintAlphabet, HintConsoleEvent, HintEventSink, HintSession, SessionState, DEFAULT_HINT_SELECTORS,
};
use crate::js::{json_string_literal, literal};
use crate::json::{json_quote, json_text};
use crate::label::label_set;
use crate::osr::OsrViewState;
use crate::scripts::{EXIT_INSERT, FOCUS_FIRST_INPUT};
use crate::strip::{
    browser_position, call, law_activation_shows_only_active, law_closing_shows_only_active,
    law_moving_keeps_active_tab, law_reopening_shows_only_active, lemma_emit_other, position,
    ClosedState, EffectState, HostState, TabState,
};
use crate::text::{
    decimal, is_empty_text, push_decimal, push_signed, push_str, same_text, signed_decimal, trim, trimmed,
};
use crate::url::{short_name, short_name_of};
use std::collections::VecDeque;
use vstd::prelude::*;

verus! {

/// How many closed tabs are kept alive for reopening.
pub const CLOSED_STACK_CAP: usize = 8;

/// How the browsers are drawn.
#[derive(Debug, Clone, Copy, PartialEq, Eq, Structural)]
pub enum HostMode {
    /// In a native child window.
    Windowed,
    /// Into a buffer that the embedder composites.
    Osr,
}

/// Tab identifier, handed out once per host.
#[derive(Debug, Clone, Copy, PartialEq, Eq, Hash, PartialOrd, Ord, Structural)]
pub struct TabId(pub u64);

impl TabId {
    /// `tab#` and the number.
    pub fn to_string(&self) -> (r: String)
        ensures
            r@ == tab_id_text(*self),
    {
        let mut out = "tab#".to_owned();
        push_decimal(&mut out, self.0);
        out
    }
}

/// How a tab id is shown.
pub open spec fn tab_id_text(id: TabId) -> Seq<char> {
    "tab#"@ + decimal(id.0 as nat)
}

/// Keyboard event as the browser takes it.
#[derive(Debug, Clone, Copy, PartialEq, Eq, Structural)]
pub struct KeyInput {
    pub kind: u32,
    pub modifiers: u32,
    pub windows_key_code: i32,
    pub native_key_code: i32,
    pub is_system_key: bool,
    pub character: u16,
    pub unmodified_character: u16,
    pub focus_on_editable_field: bool,
}

/// A request to one browser that carries no text.
#[derive(Debug, Clone, Copy, PartialEq, Eq, Structural)]
pub enum HostCall {
    WasHidden(bool),
    WasResized,
    SetFocus(bool),
    CloseBrowser,
    StopFinding,
    GoBack,
    GoForward,
    Reload,
    ReloadIgnoreCache,
    StopLoad,
    ZoomIn,
    ZoomOut,
    ShowDevTools,
    YankUrl,
    MouseMove { x: i32, y: i32, modifiers: u32, leave: bool },
    MouseClick { x: i32, y: i32, button: u32, mouse_up: bool, click_count: i32, modifiers: u32 },
    MouseWheel { x: i32, y: i32, delta_x: i32, delta_y: i32, modifiers: u32 },
    Key(KeyInput),
}

/// A request that the embedder performs.
#[derive(Debug, Clone, PartialEq, Eq)]
pub enum Effect {
    /// A call on the tab's browser.
    Call { tab: TabId, call: HostCall },
    /// Run a script in the main frame.
    RunJs { tab: TabId, code: String, url: String, line: i32 },
    /// Load a URL in the main frame.
    LoadUrl { tab: TabId, url: String },
    /// Search the page.
    Find { tab: TabId, query: String, forward: bool, find_next: bool },
    /// Create a browser and hand it to [`BrowserHost::open_tab`].
    OpenTab { url: String },
    /// Back to the default zoom level, and forget the stored one.
    ResetZoom { tab: Option<TabId> },
    /// Remove the completed downloads from the list.
    ClearCompletedDownloads,
    /// Count an opened tab.
    CountTabOpened,
}

impl View for Effect {
    type V = EffectState;

    open spec fn view(&self) -> EffectState {
        match *self {
            Effect::Call { tab, call } => EffectState::Call { tab, call },
            Effect::RunJs { tab, code, url, line } => EffectState::RunJs {
                tab,
                code: code@,
                url: url@,
                line,
            },
            Effect::LoadUrl { tab, url } => EffectState::LoadUrl { tab, url: url@ },
            Effect::Find { tab, query, forward, find_next } => EffectState::Find {
                tab,
                query: query@,
                forward,
                find_next,
            },
            Effect::OpenTab { url } => EffectState::OpenTab { url: url@ },
            Effect::ResetZoom { tab } => EffectState::ResetZoom { tab },
            Effect::ClearCompletedDownloads => EffectState::ClearCompletedDownloads,
            Effect::CountTabOpened => EffectState::CountTabOpened,
        }
    }
}

/// State of a tab that survives tab switches.
#[derive(Debug, Clone)]
pub struct TabSession {
    pub find_query: Option<String>,
    pub hint_session: Option<HintSession>,
}

impl Default for TabSession {
    fn default() -> (r: Self)
        ensures
            r.find_query is None,
            r.hint_session is None,
    {
        TabSession { find_query: None, hint_session: None }
    }
}

/// One open tab.
#[derive(Debug, Clone)]
pub struct Tab {
    pub id: TabId,
    /// Identifier of the tab's browser, as its callbacks report it.
    pub browser_id: i32,
    /// Last known URL of the main frame.
    pub url: String,
    /// Most recent title of the page.
    pub title: Option<String>,
    /// Load progress in thousandths; 1000 is idle.
    pub progress: u32,
    pub is_loading: bool,
    pub pinned: bool,
    pub session: TabSession,
}

/// View of an optional string.
pub open spec fn text_view(s: Option<String>) -> Option<Seq<char>> {
    match s {
        Some(t) => Some(t@),
        None => None,
    }
}

impl View for Tab {
    type V = TabState;

    open spec fn view(&self) -> TabState {
        TabState {
            id: self.id,
            browser_id: self.browser_id,
            url: self.url@,
            title: text_view(self.title),
            progress: self.progress,
            is_loading: self.is_loading,
            pinned: self.pinned,
            find_query: text_view(self.session.find_query),
            hint: match self.session.hint_session {
                Some(s) => Some(s@),
                None => None,
            },
        }
    }
}

/// The title of a tab in the strip: the page title, else the host or scheme of
/// the URL, else the tab id.
pub open spec fn title_text(t: TabState) -> Seq<char> {
    match t.title {
        Some(s) => if s.len() > 0 {
            s
        } else {
            url_or_id(t)
        },
        None => url_or_id(t),
    }
}

/// The host or scheme of a tab's URL, or the tab's id without a URL.
pub open spec fn url_or_id(t: TabState) -> Seq<char> {
    if t.url.len() > 0 {
        short_name(t.url)
    } else {
        tab_id_text(t.id)
    }
}

impl Tab {
    /// Title for the tab strip.
    pub fn display_title(&self) -> (r: String)
        ensures
            r@ == title_text(self@),
    {
        if let Some(t) = &self.title {
            if !is_empty_text(t.as_str()) {
                return t.clone();
            }
        }
        if !is_empty_text(self.url.as_str()) {
            return short_name_of(self.url.as_str());
        }
        self.id.to_string()
    }
}

/// Snapshot of a tab for the chrome.
#[derive(Debug, Clone)]
pub struct TabSummary {
    pub id: TabId,
    pub title: String,
    pub url: String,
    /// Load progress in thousandths.
    pub progress: u32,
    pub is_loading: bool,
    pub pinned: bool,
    pub private: bool,
}

/// Whether `r` is the snapshot of `t`.
pub open spec fn summarizes(r: TabSummary, t: TabState, private: bool) -> bool {
    &&& r.id == t.id
    &&& r.title@ == title_text(t)
    &&& r.url@ == t.url
    &&& r.progress == t.progress
    &&& r.is_loading == t.is_loading
    &&& r.pinned == t.pinned
    &&& r.private == private
}

/// A closed tab whose browser is kept alive, hidden, so that reopening keeps
/// its history and page state.
#[derive(Debug, Clone)]
pub struct ClosedTab {
    pub tab: Tab,
    pub index: usize,
}

impl View for ClosedTab {
    type V = ClosedState;

    open spec fn view(&self) -> ClosedState {
        ClosedState { tab: self.tab@, index: self.index }
    }
}

/// Snapshot of hint mode for the status line.
#[derive(Debug, Clone, PartialEq, Eq)]
pub struct HintStatus {
    pub typed: String,
    pub match_count: usize,
    pub background: bool,
}

/// The tab manager.
pub struct BrowserHost {
    tabs: Vec<Tab>,
    active: Option<usize>,
    next_id: u64,
    last_size: (u32, u32),
    private: bool,
    mode: HostMode,
    hint_alphabet: HintAlphabet,
    closed_stack: Vec<ClosedTab>,
    effects: Vec<Effect>,
}

/// Views of a list of tabs.
pub open spec fn tab_views(tabs: Seq<Tab>) -> Seq<TabState> {
    Seq::new(tabs.len(), |i: int| tabs[i]@)
}

/// Views of a list of closed tabs.
pub open spec fn closed_views(tabs: Seq<ClosedTab>) -> Seq<ClosedState> {
    Seq::new(tabs.len(), |i: int| tabs[i]@)
}

/// Views of a list of effects.
pub open spec fn effect_views(list: Seq<Effect>) -> Seq<EffectState> {
    Seq::new(list.len(), |i: int| list[i]@)
}

impl View for BrowserHost {
    type V = HostState;

    closed spec fn view(&self) -> HostState {
        HostState {
            tabs: tab_views(self.tabs@),
            active: self.active,
            next_id: self.next_id,
            last_size: self.last_size,
            private: self.private,
            mode: self.mode,
            alphabet: self.hint_alphabet@,
            closed: closed_views(self.closed_stack@),
            effects: effect_views(self.effects@),
        }
    }
}

impl BrowserHost {
    /// A host without tabs.
    fn empty(mode: HostMode, hint_alphabet: HintAlphabet, last_size: (u32, u32), private: bool) -> (r:
        Self)
        ensures
            r@ == HostState::empty(mode, hint_alphabet@, last_size, private),
    {
        let r = BrowserHost {
            tabs: Vec::new(),
            active: None,
            next_id: 0,
            last_size,
            private,
            mode,
            hint_alphabet,
            closed_stack: Vec::new(),
            effects: Vec::new(),
        };
        assert(r@ =~= HostState::empty(mode, hint_alphabet@, last_size, private));
        r
    }

    /// Queue a request.
    fn emit(&mut self, effect: Effect)
        ensures
            final(self)@ == old(self)@.emit(effect@),
    {
        self.effects.push(effect);
        assert(self@ =~= old(self)@.emit(effect@));
    }

    /// Queue a call on a tab's browser.
    fn emit_call(&mut self, tab: TabId, c: HostCall)
        ensures
            final(self)@ == old(self)@.emit(call(tab, c)),
    {
        self.emit(Effect::Call { tab, call: c });
    }

    /// Make tab number `i` active.
    fn set_active_index(&mut self, i: usize)
        requires
            old(self)@.wf(),
        ensures
            final(self)@ == old(self)@.activated(i as int),
            final(self)@.wf(),
    {
        if i >= self.tabs.len() {
            return;
        }
        if let Some(p) = self.active {
            if p < self.tabs.len() && p != i {
                let prev = self.tabs[p].id;
                self.emit_call(prev, HostCall::WasHidden(true));
                self.emit_call(prev, HostCall::SetFocus(false));
            }
        }
        let id = self.tabs[i].id;
        self.emit_call(id, HostCall::WasHidden(false));
        self.emit_call(id, HostCall::WasResized);
        self.emit_call(id, HostCall::SetFocus(true));
        self.active = Some(i);
        assert(self@ =~= old(self)@.activated(i as int));
    }

    /// Append a tab for a browser that was just created.
    fn add_tab(&mut self, browser_id: i32, url: &str, background: bool) -> (id: TabId)
        requires
            old(self)@.wf(),
        ensures
            final(self)@ == old(self)@.added(browser_id, url@, background),
            final(self)@.wf(),
            id == TabId(old(self)@.next_id),
    {
        let id = TabId(self.next_id);
        self.next_id = self.next_id.wrapping_add(1);
        let tab = Tab {
            id,
            browser_id,
            url: url.to_owned(),
            title: None,
            progress: 1000,
            is_loading: false,
            pinned: false,
            session: TabSession { find_query: None, hint_session: None },
        };
        let n: usize = self.tabs.len();
        self.tabs.push(tab);
        let ghost grown = HostState {
            tabs: old(self)@.tabs.push(old(self)@.new_tab(browser_id, url@)),
            next_id: old(self)@.next_id.wrapping_add(1),
            ..old(self)@
        };
        assert(self@ =~= grown);
        let len: usize = self.tabs.len();
        assert(len == n + 1);
        if background {
            self.emit_call(id, HostCall::WasHidden(true));
        } else {
            self.set_active_index(n);
        }
        self.emit(Effect::CountTabOpened);
        id
    }

    /// Insert a tab at `pos`; the active index follows its tab.
    fn insert_tab(&mut self, pos: usize, tab: Tab)
        requires
            old(self)@.wf(),
            pos <= old(self)@.tabs.len(),
        ensures
            final(self)@ == old(self)@.inserted(pos as int, tab@),
            final(self)@.wf(),
    {
        self.tabs.insert(pos, tab);
        let n: usize = self.tabs.len();
        assert(n == old(self)@.tabs.len() + 1);
        if let Some(a) = self.active {
            if a >= pos {
                self.active = Some(a + 1);
            }
        }
        assert(self@ =~= old(self)@.inserted(pos as int, tab@));
    }

    /// Take tab number `i` out; the active index follows its tab.
    fn take_tab(&mut self, i: usize) -> (tab: Tab)
        requires
            old(self)@.wf(),
            i < old(self)@.tabs.len(),
        ensures
            tab@ == old(self)@.tabs[i as int],
            final(self)@ == old(self)@.taken(i as int),
            final(self)@.wf(),
    {
        let tab = self.tabs.remove(i);
        if let Some(a) = self.active {
            if a == i {
                self.active = None;
            } else if a > i {
                self.active = Some(a - 1);
            }
        }
        assert(self@ =~= old(self)@.taken(i as int));
        tab
    }

    /// Keep a closed tab for reopening.
    fn stash(&mut self, tab: Tab, index: usize)
        requires
            old(self)@.wf(),
        ensures
            final(self)@ == old(self)@.stashed(tab@, index as int),
            final(self)@.wf(),
    {
        let id = tab.id;
        self.emit_call(id, HostCall::WasHidden(true));
        self.emit_call(id, HostCall::SetFocus(false));
        let ghost hidden = self@;
        self.closed_stack.push(ClosedTab { tab, index });
        let ghost pushed = old(self)@.closed.push(ClosedState { tab: tab@, index });
        assert(self@ =~= HostState { closed: pushed, ..hidden });
        if self.closed_stack.len() > CLOSED_STACK_CAP {
            let oldest = self.closed_stack.remove(0);
            assert(self@ =~= HostState { closed: pushed.drop_first(), ..hidden });
            self.emit_call(oldest.tab.id, HostCall::CloseBrowser);
            assert(self@ =~= old(self)@.stashed(tab@, index as int));
        }
    }

    /// Close tab number `i`. `false` if it was the last one.
    fn close_index(&mut self, i: usize) -> (more: bool)
        requires
            old(self)@.wf(),
        ensures
            final(self)@ == old(self)@.closed_at(i as int),
            final(self)@.wf(),
            more == (i >= old(self)@.tabs.len() || final(self)@.tabs.len() > 0),
    {
        if i >= self.tabs.len() {
            return true;
        }
        let tab = self.take_tab(i);
        if !is_empty_text(tab.url.as_str()) && !same_text(tab.url.as_str(), "about:blank") {
            self.stash(tab, i);
        } else {
            self.emit_call(tab.id, HostCall::CloseBrowser);
        }
        let len: usize = self.tabs.len();
        if len == 0 {
            return false;
        }
        let next: usize = if i >= len {
            len - 1
        } else {
            i
        };
        self.set_active_index(next);
        true
    }

    /// Position of the tab with this id.
    fn find_tab(&self, id: TabId) -> (r: usize)
        ensures
            r == position(self@.tabs, id),
            r <= self@.tabs.len(),
            r < self@.tabs.len() ==> self@.tabs[r as int].id == id,
    {
        let mut i: usize = 0;
        assert(self@.tabs.skip(0) == self@.tabs);
        while i < self.tabs.len()
            invariant
                i <= self.tabs@.len(),
                self@.tabs.len() == self.tabs@.len(),
                position(self@.tabs, id) == i + position(self@.tabs.skip(i as int), id),
            decreases self.tabs@.len() - i,
        {
            assert(self@.tabs.skip(i as int)[0] == self.tabs@[i as int]@);
            if self.tabs[i].id.0 == id.0 {
                return i;
            }
            assert(self@.tabs.skip(i as int).drop_first() == self@.tabs.skip(i + 1));
            i += 1;
        }
        i
    }

    /// Create the host with one tab, for a browser that was just created.
    /// Fails without one.
    pub fn new(
        mode: HostMode,
        url: &str,
        created: Option<i32>,
        hint_alphabet: HintAlphabet,
        initial_size: (u32, u32),
    ) -> (r: Result<Self, CoreError>)
        ensures
            match (created, r) {
                (Some(b), Ok(host)) => host@ == HostState::empty(
                    mode,
                    hint_alphabet@,
                    initial_size,
                    false,
                ).added(b, url@, false) && host@.wf(),
                (None, Err(e)) => e == CoreError::CreateBrowserFailed,
                _ => false,
            },
    {
        Self::new_with_options(mode, url, created, hint_alphabet, initial_size, false)
    }

    /// Like [`BrowserHost::new`], for a private host or an ordinary one.
    pub fn new_with_options(
        mode: HostMode,
        url: &str,
        created: Option<i32>,
        hint_alphabet: HintAlphabet,
        initial_size: (u32, u32),
        private: bool,
    ) -> (r: Result<Self, CoreError>)
        ensures
            match (created, r) {
                (Some(b), Ok(host)) => host@ == HostState::empty(
                    mode,
                    hint_alphabet@,
                    initial_size,
                    private,
                ).added(b, url@, false) && host@.wf(),
                (None, Err(e)) => e == CoreError::CreateBrowserFailed,
                _ => false,
            },
    {
        let mut host = Self::empty(mode, hint_alphabet, initial_size, private);
        match host.open_tab(url, created) {
            Ok(_) => Ok(host),
            Err(_) => Err(CoreError::CreateBrowserFailed),
        }
    }

    /// Take the queued requests, oldest first.
    pub fn take_effects(&mut self) -> (r: Vec<Effect>)
        ensures
            effect_views(r@) == old(self)@.effects,
            final(self)@ == (HostState { effects: Seq::empty(), ..old(self)@ }),
    {
        let mut out: Vec<Effect> = Vec::new();
        std::mem::swap(&mut out, &mut self.effects);
        assert(self@ =~= HostState { effects: Seq::empty(), ..old(self)@ });
        out
    }

    /// Rendering mode.
    pub fn mode(&self) -> (r: HostMode)
        ensures
            r == self@.mode,
    {
        self.mode
    }

    /// Open a tab at the end of the strip and make it active. `created` is
    /// the identifier of the browser made for it; without one nothing
    /// changes and the call fails.
    pub fn open_tab(&mut self, url: &str, created: Option<i32>) -> (r: Result<TabId, CoreError>)
        requires
            old(self)@.wf(),
        ensures
            final(self)@.wf(),
            match created {
                Some(b) => r == Ok::<TabId, CoreError>(TabId(old(self)@.next_id)) && final(self)@
                    == old(self)@.added(b, url@, false),
                None => r == Err::<TabId, CoreError>(CoreError::CreateBrowserFailed) && final(self)@
                    == old(self)@,
            },
    {
        match created {
            Some(b) => Ok(self.add_tab(b, url, false)),
            None => Err(CoreError::CreateBrowserFailed),
        }
    }

    /// Like [`BrowserHost::open_tab`], but the new tab stays hidden and the
    /// active tab does not change.
    pub fn open_tab_background(&mut self, url: &str, created: Option<i32>) -> (r: Result<
        TabId,
        CoreError,
    >)
        requires
            old(self)@.wf(),
        ensures
            final(self)@.wf(),
            match created {
                Some(b) => r == Ok::<TabId, CoreError>(TabId(old(self)@.next_id)) && final(self)@
                    == old(self)@.added(b, url@, true),
                None => r == Err::<TabId, CoreError>(CoreError::CreateBrowserFailed) && final(self)@
                    == old(self)@,
            },
    {
        match created {
            Some(b) => Ok(self.add_tab(b, url, true)),
            None => Err(CoreError::CreateBrowserFailed),
        }
    }

    /// Open a tab at position `insert_idx`, or at the end if that lies
    /// outside the strip, and make it active.
    pub fn open_tab_at(&mut self, url: &str, insert_idx: usize, created: Option<i32>) -> (r: Result<
        TabId,
        CoreError,
    >)
        requires
            old(self)@.wf(),
        ensures
            final(self)@.wf(),
            match created {
                Some(b) => r == Ok::<TabId, CoreError>(TabId(old(self)@.next_id)) && final(self)@
                    == old(self)@.added_at(b, url@, insert_idx as int),
                None => r == Err::<TabId, CoreError>(CoreError::CreateBrowserFailed) && final(self)@
                    == old(self)@,
            },
    {
        match created {
            Some(b) => {
                let end: usize = self.tabs.len();
                let id = self.add_tab(b, url, true);
                let pos: usize = if insert_idx <= end {
                    insert_idx
                } else {
                    end
                };
                let tab = self.take_tab(end);
                self.insert_tab(pos, tab);
                self.set_active_index(pos);
                Ok(id)
            },
            None => Err(CoreError::CreateBrowserFailed),
        }
    }

    /// Put the most recently closed tab back at its position and make it
    /// active. `Ok(None)` if there is no closed tab.
    pub fn reopen_closed_tab(&mut self) -> (r: Result<Option<TabId>, CoreError>)
        requires
            old(self)@.wf(),
        ensures
            final(self)@.wf(),
            final(self)@ == old(self)@.reopened(),
            r == Ok::<Option<TabId>, CoreError>(
                if old(self)@.closed.len() == 0 {
                    None
                } else {
                    Some(old(self)@.closed.last().tab.id)
                },
            ),
            old(self)@.closed.len() > 0 ==> {
                let entry = old(self)@.closed[old(self)@.closed.len() - 1];
                let p: int = if entry.index <= old(self)@.tabs.len() {
                    entry.index as int
                } else {
                    old(self)@.tabs.len() as int
                };
                &&& final(self)@.tabs == old(self)@.tabs.insert(p, entry.tab)
                &&& final(self)@.active == Some(p as usize)
            },
    {
        match self.closed_stack.pop() {
            None => {
                assert(self@ =~= old(self)@);
                Ok(None)
            },
            Some(entry) => {
                assert(self@ =~= HostState { closed: old(self)@.closed.drop_last(), ..old(self)@ });
                assert(old(self)@.closed.last() == entry@);
                let id = entry.tab.id;
                let n: usize = self.tabs.len();
                let pos: usize = if entry.index <= n {
                    entry.index
                } else {
                    n
                };
                self.insert_tab(pos, entry.tab);
                self.emit_call(id, HostCall::WasHidden(false));
                self.emit_call(id, HostCall::WasResized);
                self.set_active_index(pos);
                Ok(Some(id))
            },
        }
    }

    /// Number of closed tabs that can be reopened.
    pub fn closed_stack_len(&self) -> (r: usize)
        ensures
            r == self@.closed.len(),
    {
        self.closed_stack.len()
    }

    /// Make the tab with this id active. Nothing happens without one.
    pub fn select_tab(&mut self, id: TabId)
        requires
            old(self)@.wf(),
        ensures
            final(self)@.wf(),
            final(self)@ == old(self)@.activated(position(old(self)@.tabs, id)),
    {
        let i = self.find_tab(id);
        self.set_active_index(i);
    }

    /// Number of open tabs.
    pub fn tab_count(&self) -> (r: usize)
        ensures
            r == self@.tabs.len(),
    {
        self.tabs.len()
    }

    /// Position of the active tab.
    pub fn active_index(&self) -> (r: Option<usize>)
        ensures
            r == self@.active,
    {
        self.active
    }

    /// Snapshot of a tab.
    fn summarize(&self, i: usize) -> (r: TabSummary)
        requires
            i < self@.tabs.len(),
        ensures
            summarizes(r, self@.tabs[i as int], self@.private),
    {
        let t = &self.tabs[i];
        TabSummary {
            id: t.id,
            title: t.display_title(),
            url: t.url.clone(),
            progress: t.progress,
            is_loading: t.is_loading,
            pinned: t.pinned,
            private: self.private,
        }
    }

    /// Snapshot of the active tab.
    pub fn active_tab(&self) -> (r: Option<TabSummary>)
        ensures
            match (r, self@.active_state()) {
                (Some(s), Some(t)) => summarizes(s, t, self@.private),
                (None, None) => true,
                _ => false,
            },
    {
        match self.active {
            Some(a) => if a < self.tabs.len() {
                Some(self.summarize(a))
            } else {
                None
            },
            None => None,
        }
    }

    /// Snapshots of all tabs in strip order.
    pub fn tabs_summary(&self) -> (r: Vec<TabSummary>)
        ensures
            r@.len() == self@.tabs.len(),
            forall|i: int|
                0 <= i < r@.len() ==> summarizes(#[trigger] r@[i], self@.tabs[i], self@.private),
    {
        let mut out: Vec<TabSummary> = Vec::new();
        let mut i: usize = 0;
        while i < self.tabs.len()
            invariant
                i <= self.tabs@.len() == self@.tabs.len(),
                out@.len() == i,
                forall|k: int|
                    0 <= k < i ==> summarizes(#[trigger] out@[k], self@.tabs[k], self@.private),
            decreases self.tabs@.len() - i,
        {
            let s = self.summarize(i);
            out.push(s);
            i += 1;
        }
        out
    }

    /// URL of the active tab, empty without one.
    pub fn active_tab_live_url(&self) -> (r: String)
        ensures
            r@ == match self@.active_state() {
                Some(t) => t.url,
                None => Seq::empty(),
            },
    {
        if let Some(a) = self.active {
            if a < self.tabs.len() {
                return self.tabs[a].url.clone();
            }
        }
        String::new()
    }

    /// Activate the next tab, the first after the last.
    pub fn next_tab(&mut self)
        requires
            old(self)@.wf(),
        ensures
            final(self)@.wf(),
            final(self)@ == old(self)@.next(),
    {
        let len: usize = self.tabs.len();
        if len <= 1 {
            return;
        }
        let cur: usize = match self.active {
            Some(a) => a,
            None => 0,
        };
        let next: usize = if cur + 1 == len {
            0
        } else {
            cur + 1
        };
        proof {
            if cur + 1 == len {
                assert((cur + 1) % (len as int) == 0) by (nonlinear_arith)
                    requires
                        cur + 1 == len,
                        len > 1,
                ;
            } else {
                assert((cur + 1) % (len as int) == cur + 1) by (nonlinear_arith)
                    requires
                        0 <= cur + 1 < len,
                ;
            }
        }
        self.set_active_index(next);
    }

    /// Activate the previous tab, the last before the first.
    pub fn prev_tab(&mut self)
        requires
            old(self)@.wf(),
        ensures
            final(self)@.wf(),
            final(self)@ == old(self)@.prev(),
    {
        let len: usize = self.tabs.len();
        if len <= 1 {
            return;
        }
        let cur: usize = match self.active {
            Some(a) => a,
            None => 0,
        };
        let prev: usize = if cur == 0 {
            len - 1
        } else {
            cur - 1
        };
        self.set_active_index(prev);
    }

    /// Close the active tab. `Ok(false)` if it was the last one; an error
    /// without an active tab.
    pub fn close_active(&mut self) -> (r: Result<bool, CoreError>)
        requires
            old(self)@.wf(),
        ensures
            final(self)@.wf(),
            match old(self)@.active {
                Some(a) => r == Ok::<bool, CoreError>(final(self)@.tabs.len() > 0) && final(self)@
                    == old(self)@.closed_at(a as int),
                None => r == Err::<bool, CoreError>(CoreError::CreateBrowserFailed) && final(self)@
                    == old(self)@,
            },
    {
        match self.active {
            Some(a) => Ok(self.close_index(a)),
            None => Err(CoreError::CreateBrowserFailed),
        }
    }

    /// Close the tab with this id. `Ok(false)` if it was the last one;
    /// `Ok(true)` and no change without such a tab.
    pub fn close_tab(&mut self, id: TabId) -> (r: Result<bool, CoreError>)
        requires
            old(self)@.wf(),
        ensures
            final(self)@.wf(),
            final(self)@ == old(self)@.closed_at(position(old(self)@.tabs, id)),
            r == Ok::<bool, CoreError>(
                position(old(self)@.tabs, id) >= old(self)@.tabs.len()
                    || final(self)@.tabs.len() > 0,
            ),
    {
        let i = self.find_tab(id);
        Ok(self.close_index(i))
    }

    /// Move the tab at `from` to `to`. Positions outside the strip mean its
    /// end. The active tab stays active.
    pub fn move_tab(&mut self, from: usize, to: usize)
        requires
            old(self)@.wf(),
        ensures
            final(self)@.wf(),
            final(self)@ == old(self)@.moved(from as int, to as int),
    {
        let len: usize = self.tabs.len();
        if len == 0 {
            return;
        }
        let f: usize = if from < len {
            from
        } else {
            len - 1
        };
        let t: usize = if to < len {
            to
        } else {
            len - 1
        };
        if f == t {
            return;
        }
        let tab = self.tabs.remove(f);
        self.tabs.insert(t, tab);
        if let Some(a) = self.active {
            let moved: usize = if a == f {
                t
            } else if f < a && t >= a {
                a - 1
            } else if f > a && t <= a {
                a + 1
            } else {
                a
            };
            self.active = Some(moved);
        }
        assert(self@ =~= old(self)@.moved(from as int, to as int));
    }

    /// URL for a duplicate of the active tab, a blank page for a tab without
    /// a URL. `None` without an active tab.
    pub fn duplicate_target(&self) -> (r: Option<String>)
        ensures
            match (r, self@.active_state()) {
                (Some(u), Some(t)) => u@ == duplicate_url(t),
                (None, None) => true,
                _ => false,
            },
    {
        match self.active {
            Some(a) => if a < self.tabs.len() {
                if is_empty_text(self.tabs[a].url.as_str()) {
                    Some("about:blank".to_owned())
                } else {
                    Some(self.tabs[a].url.clone())
                }
            } else {
                None
            },
            None => None,
        }
    }

    /// Open a duplicate of the active tab for a browser that was created for
    /// [`BrowserHost::duplicate_target`]. Fails without an active tab or a
    /// browser.
    pub fn duplicate_active(&mut self, created: Option<i32>) -> (r: Result<TabId, CoreError>)
        requires
            old(self)@.wf(),
        ensures
            final(self)@.wf(),
            match (old(self)@.active_state(), created) {
                (Some(t), Some(b)) => r == Ok::<TabId, CoreError>(TabId(old(self)@.next_id))
                    && final(self)@ == old(self)@.added(b, duplicate_url(t), false),
                _ => r == Err::<TabId, CoreError>(CoreError::CreateBrowserFailed) && final(self)@
                    == old(self)@,
            },
    {
        match self.duplicate_target() {
            Some(url) => self.open_tab(url.as_str(), created),
            None => Err(CoreError::CreateBrowserFailed),
        }
    }

    /// Flip the pin of the active tab. A pinned tab can still be closed.
    pub fn toggle_pin_active(&mut self)
        requires
            old(self)@.wf(),
        ensures
            final(self)@.wf(),
            final(self)@ == match old(self)@.active_state() {
                Some(t) => old(self)@.with_active(TabState { pinned: !t.pinned, ..t }),
                None => old(self)@,
            },
    {
        if let Some(a) = self.active {
            let pinned = self.tabs[a].pinned;
            self.tabs[a].pinned = !pinned;
            assert(self@ =~= old(self)@.with_active(
                TabState { pinned: !pinned, ..old(self)@.tabs[a as int] },
            ));
        }
    }

    /// Set the pin of the tab with this id. Nothing happens without one.
    pub fn set_pinned(&mut self, id: TabId, pinned: bool)
        requires
            old(self)@.wf(),
        ensures
            final(self)@.wf(),
            final(self)@ == {
                let i = position(old(self)@.tabs, id);
                if i < old(self)@.tabs.len() {
                    HostState {
                        tabs: old(self)@.tabs.update(
                            i,
                            TabState { pinned, ..old(self)@.tabs[i] },
                        ),
                        ..old(self)@
                    }
                } else {
                    old(self)@
                }
            },
    {
        let i = self.find_tab(id);
        if i < self.tabs.len() {
            self.tabs[i].pinned = pinned;
            assert(self@ =~= HostState {
                tabs: old(self)@.tabs.update(
                    i as int,
                    TabState { pinned, ..old(self)@.tabs[i as int] },
                ),
                ..old(self)@
            });
        }
    }
}

/// URL for a duplicate of a tab.
pub open spec fn duplicate_url(t: TabState) -> Seq<char> {
    if t.url.len() == 0 {
        "about:blank"@
    } else {
        t.url
    }
}

/// Queue of address changes: browser identifier and URL.
pub type AddressSink = VecDeque<(i32, String)>;

/// The strip after browser `browser_id` went to `url`.
pub open spec fn url_recorded(tabs: Seq<TabState>, browser_id: i32, url: Seq<char>) -> Seq<TabState> {
    let i = browser_position(tabs, browser_id);
    if i < tabs.len() {
        tabs.update(i, TabState { url, ..tabs[i] })
    } else {
        tabs
    }
}

/// The strip after a list of address changes.
pub open spec fn urls_recorded(tabs: Seq<TabState>, changes: Seq<(i32, String)>) -> Seq<TabState>
    decreases changes.len(),
{
    if changes.len() == 0 {
        tabs
    } else {
        url_recorded(
            urls_recorded(tabs, changes.drop_last()),
            changes.last().0,
            changes.last().1@,
        )
    }
}

proof fn lemma_browser_position(tabs: Seq<TabState>, browser_id: i32)
    ensures
        0 <= browser_position(tabs, browser_id) <= tabs.len(),
    decreases tabs.len(),
{
    if tabs.len() > 0 {
        lemma_browser_position(tabs.drop_first(), browser_id);
    }
}

/// Recording URLs changes nothing but the URLs of the tabs.
proof fn lemma_urls_recorded(tabs: Seq<TabState>, changes: Seq<(i32, String)>)
    ensures
        urls_recorded(tabs, changes).len() == tabs.len(),
        forall|i: int|
            0 <= i < tabs.len() ==> #[trigger] urls_recorded(tabs, changes)[i] == (TabState {
                url: urls_recorded(tabs, changes)[i].url,
                ..tabs[i]
            }),
    decreases changes.len(),
{
    if changes.len() > 0 {
        lemma_urls_recorded(tabs, changes.drop_last());
        lemma_browser_position(urls_recorded(tabs, changes.drop_last()), changes.last().0);
    }
}

/// What the host needs to create a browser.
#[derive(Debug, Clone, Copy, PartialEq, Eq, Structural)]
pub struct BrowserRequest {
    pub width: i32,
    pub height: i32,
    /// Whether the browser paints into a buffer instead of a window.
    pub windowless: bool,
}

impl BrowserHost {
    /// Size and rendering mode for the next browser.
    pub fn browser_request(&self) -> (r: BrowserRequest)
        ensures
            r.width == self@.last_size.0 as i32,
            r.height == self@.last_size.1 as i32,
            r.windowless == (self@.mode == HostMode::Osr),
    {
        BrowserRequest {
            width: self.last_size.0 as i32,
            height: self.last_size.1 as i32,
            windowless: self.mode == HostMode::Osr,
        }
    }

    /// Position of the tab with this browser.
    fn find_browser(&self, browser_id: i32) -> (r: usize)
        ensures
            r == browser_position(self@.tabs, browser_id),
            r <= self@.tabs.len(),
    {
        let mut i: usize = 0;
        assert(self@.tabs.skip(0) == self@.tabs);
        while i < self.tabs.len()
            invariant
                i <= self.tabs@.len(),
                self@.tabs.len() == self.tabs@.len(),
                browser_position(self@.tabs, browser_id) == i + browser_position(
                    self@.tabs.skip(i as int),
                    browser_id,
                ),
            decreases self.tabs@.len() - i,
        {
            assert(self@.tabs.skip(i as int)[0] == self.tabs@[i as int]@);
            if self.tabs[i].browser_id == browser_id {
                return i;
            }
            assert(self@.tabs.skip(i as int).drop_first() == self@.tabs.skip(i + 1));
            i += 1;
        }
        i
    }

    /// Record the URL of the tab with this browser. Returns the tab, if there
    /// is one.
    pub fn record_url(&mut self, browser_id: i32, url: &str) -> (r: Option<TabId>)
        requires
            old(self)@.wf(),
        ensures
            final(self)@.wf(),
            final(self)@ == (HostState {
                tabs: url_recorded(old(self)@.tabs, browser_id, url@),
                ..old(self)@
            }),
            r == {
                let i = browser_position(old(self)@.tabs, browser_id);
                if i < old(self)@.tabs.len() {
                    Some(old(self)@.tabs[i].id)
                } else {
                    None
                }
            },
    {
        let i = self.find_browser(browser_id);
        if i < self.tabs.len() {
            self.tabs[i].url = url.to_owned();
            assert(self@ =~= HostState {
                tabs: url_recorded(old(self)@.tabs, browser_id, url@),
                ..old(self)@
            });
            Some(self.tabs[i].id)
        } else {
            None
        }
    }

    /// Apply all queued address changes, oldest first. `true` if a tab has
    /// another URL afterwards.
    pub fn pump_address_changes(&mut self, sink: &mut AddressSink) -> (changed: bool)
        requires
            old(self)@.wf(),
        ensures
            final(self)@.wf(),
            final(sink)@.len() == 0,
            final(self)@ == (HostState {
                tabs: urls_recorded(old(self)@.tabs, old(sink)@),
                ..old(self)@
            }),
            changed == (final(self)@.tabs != old(self)@.tabs),
    {
        let before = self.urls();
        let ghost all = sink@;
        let ghost start = self@;
        let ghost mut done: int = 0;
        assert(all.take(0) == Seq::<(i32, String)>::empty());
        assert(all.skip(0) == all);
        while sink.len() > 0
            invariant
                0 <= done <= all.len(),
                sink@ == all.skip(done),
                self@.wf(),
                self@ == (HostState { tabs: urls_recorded(start.tabs, all.take(done)), ..start }),
            decreases sink@.len(),
        {
            match sink.pop_front() {
                Some(change) => {
                    let _ = self.record_url(change.0, change.1.as_str());
                    proof {
                        assert(change == all[done]);
                        assert(all.take(done + 1).drop_last() == all.take(done));
                        done = done + 1;
                    }
                },
                None => {},
            }
        }
        proof {
            assert(all.take(done) == all);
            lemma_urls_recorded(start.tabs, all);
        }
        let same = self.has_urls(&before);
        proof {
            if same {
                assert forall|k: int| 0 <= k < start.tabs.len() implies #[trigger] self@.tabs[k]
                    == start.tabs[k] by {
                    assert(before@[k]@ == self@.tabs[k].url);
                }
                assert(self@.tabs =~= start.tabs);
            }
        }
        !same
    }

    /// Whether the tabs have these URLs, in order.
    fn has_urls(&self, urls: &Vec<String>) -> (r: bool)
        requires
            urls@.len() == self@.tabs.len(),
        ensures
            r == forall|k: int| 0 <= k < urls@.len() ==> (#[trigger] urls@[k])@ == self@.tabs[k].url,
    {
        let mut i: usize = 0;
        while i < self.tabs.len()
            invariant
                i <= self.tabs@.len() == urls@.len(),
                self@.tabs.len() == self.tabs@.len(),
                forall|k: int| 0 <= k < i ==> (#[trigger] urls@[k])@ == self@.tabs[k].url,
            decreases self.tabs@.len() - i,
        {
            if !same_text(self.tabs[i].url.as_str(), urls[i].as_str()) {
                assert(urls@[i as int]@ != self@.tabs[i as int].url);
                return false;
            }
            i += 1;
        }
        true
    }

    /// The URLs of all tabs.
    fn urls(&self) -> (r: Vec<String>)
        ensures
            r@.len() == self@.tabs.len(),
            forall|k: int| 0 <= k < r@.len() ==> (#[trigger] r@[k])@ == self@.tabs[k].url,
    {
        let mut out: Vec<String> = Vec::new();
        let mut i: usize = 0;
        while i < self.tabs.len()
            invariant
                i <= self.tabs@.len() == self@.tabs.len(),
                out@.len() == i,
                forall|k: int| 0 <= k < i ==> (#[trigger] out@[k])@ == self@.tabs[k].url,
            decreases self.tabs@.len() - i,
        {
            out.push(self.tabs[i].url.clone());
            i += 1;
        }
        out
    }

    /// Queue a call on the active tab's browser.
    fn emit_active(&mut self, c: HostCall)
        ensures
            final(self)@ == old(self)@.emit_active(c),
    {
        if let Some(a) = self.active {
            if a < self.tabs.len() {
                let id = self.tabs[a].id;
                self.emit_call(id, c);
            }
        }
    }

    /// Forward a mouse move to the active browser.
    pub fn osr_mouse_move(&mut self, x: i32, y: i32, modifiers: u32)
        ensures
            final(self)@ == old(self)@.forwarded(
                HostCall::MouseMove { x, y, modifiers, leave: false },
            ),
    {
        if self.mode == HostMode::Osr {
            self.emit_active(HostCall::MouseMove { x, y, modifiers, leave: false });
        }
    }

    /// Forward a mouse click to the active browser.
    pub fn osr_mouse_click(
        &mut self,
        x: i32,
        y: i32,
        button: u32,
        mouse_up: bool,
        click_count: i32,
        modifiers: u32,
    )
        ensures
            final(self)@ == old(self)@.forwarded(
                HostCall::MouseClick { x, y, button, mouse_up, click_count, modifiers },
            ),
    {
        if self.mode == HostMode::Osr {
            self.emit_active(
                HostCall::MouseClick { x, y, button, mouse_up, click_count, modifiers },
            );
        }
    }

    /// Tell the active browser that the mouse left the window.
    pub fn osr_mouse_leave(&mut self, modifiers: u32)
        ensures
            final(self)@ == old(self)@.forwarded(
                HostCall::MouseMove { x: 0, y: 0, modifiers, leave: true },
            ),
    {
        if self.mode == HostMode::Osr {
            self.emit_active(HostCall::MouseMove { x: 0, y: 0, modifiers, leave: true });
        }
    }

    /// Forward a wheel turn to the active browser.
    pub fn osr_mouse_wheel(&mut self, x: i32, y: i32, delta_x: i32, delta_y: i32, modifiers: u32)
        ensures
            final(self)@ == old(self)@.forwarded(
                HostCall::MouseWheel { x, y, delta_x, delta_y, modifiers },
            ),
    {
        if self.mode == HostMode::Osr {
            self.emit_active(HostCall::MouseWheel { x, y, delta_x, delta_y, modifiers });
        }
    }

    /// Forward a key to the active browser.
    pub fn osr_key_event(&mut self, event: KeyInput)
        ensures
            final(self)@ == old(self)@.forwarded(HostCall::Key(event)),
    {
        if self.mode == HostMode::Osr {
            self.emit_active(HostCall::Key(event));
        }
    }

    /// Tell the active browser about the focus.
    pub fn osr_focus(&mut self, focused: bool)
        ensures
            final(self)@ == old(self)@.forwarded(HostCall::SetFocus(focused)),
    {
        if self.mode == HostMode::Osr {
            self.emit_active(HostCall::SetFocus(focused));
        }
    }

    /// A new viewport: later browsers get this size and the active one is
    /// told to paint at it.
    pub fn osr_resize(&mut self, view: &mut OsrViewState, width: u32, height: u32)
        ensures
            *final(view) == (OsrViewState { width, height, ..*old(view) }),
            final(self)@ == (HostState { last_size: (width, height), ..old(self)@ }).emit_active(
                HostCall::WasResized,
            ),
    {
        view.width = width;
        view.height = height;
        self.last_size = (width, height);
        assert(self@ =~= HostState { last_size: (width, height), ..old(self)@ });
        self.emit_active(HostCall::WasResized);
    }

    /// A new page area: every browser is told to lay out again.
    pub fn resize(&mut self, width: u32, height: u32)
        ensures
            final(self)@ == (HostState {
                last_size: (width, height),
                effects: old(self)@.effects + resize_calls(old(self)@.tabs),
                ..old(self)@
            }),
    {
        self.last_size = (width, height);
        let ghost start = self@;
        let n: usize = self.tabs.len();
        let mut i: usize = 0;
        assert(start.effects + resize_calls(start.tabs.take(0)) == start.effects);
        while i < n
            invariant
                i <= n == self@.tabs.len(),
                n == self.tabs@.len(),
                self@ == (HostState {
                    effects: start.effects + resize_calls(start.tabs.take(i as int)),
                    ..start
                }),
            decreases n - i,
        {
            let ghost before = self@;
            let id = self.tabs[i].id;
            self.emit_call(id, HostCall::WasResized);
            proof {
                assert(start.tabs.take(i + 1).drop_last() == start.tabs.take(i as int));
                assert(resize_calls(start.tabs.take(i + 1)) == resize_calls(
                    start.tabs.take(i as int),
                ).push(call(id, HostCall::WasResized)));
                assert(before.effects.push(call(id, HostCall::WasResized)) == start.effects
                    + resize_calls(start.tabs.take(i + 1)));
            }
            i += 1;
        }
        assert(start.tabs.take(n as int) == start.tabs);
        assert(self@ =~= HostState {
            last_size: (width, height),
            effects: old(self)@.effects + resize_calls(old(self)@.tabs),
            ..old(self)@
        });
    }

    /// Load `url`, without the white space around it, in the active tab.
    /// `frame` tells whether the tab's main frame is there.
    pub fn navigate(&mut self, url: &str, frame: bool) -> (r: Result<(), CoreError>)
        requires
            old(self)@.wf(),
        ensures
            final(self)@.wf(),
            match old(self)@.active_state() {
                Some(t) if frame && trimmed(url@).len() > 0 => r is Ok && final(self)@
                    == old(self)@.emit(
                    EffectState::LoadUrl { tab: t.id, url: trimmed(url@) },
                ).with_active(TabState { url: trimmed(url@), ..t }),
                _ => {
                    &&& final(self)@ == old(self)@
                    &&& match r {
                        Err(CoreError::InvalidUrl(u)) => trimmed(url@).len() == 0 && u@.len() == 0,
                        Err(CoreError::CreateBrowserFailed) => trimmed(url@).len() > 0,
                        _ => false,
                    }
                },
            },
    {
        let target = trim(url);
        if is_empty_text(target.as_str()) {
            return Err(CoreError::InvalidUrl(String::new()));
        }
        match self.active {
            Some(a) => {
                if !frame {
                    return Err(CoreError::CreateBrowserFailed);
                }
                let id = self.tabs[a].id;
                self.emit(Effect::LoadUrl { tab: id, url: target.clone() });
                let ghost before = self@;
                self.tabs[a].url = target;
                assert(self@ =~= before.with_active(
                    TabState { url: target@, ..before.tabs[a as int] },
                ));
                Ok(())
            },
            None => Err(CoreError::CreateBrowserFailed),
        }
    }

    /// Search the active tab's page. An empty query ends the search. `host`
    /// tells whether the tab's browser is there.
    pub fn start_find(&mut self, query: &str, forward: bool, host: bool)
        requires
            old(self)@.wf(),
        ensures
            final(self)@.wf(),
            final(self)@ == if query@.len() == 0 {
                old(self)@.find_stopped()
            } else {
                match old(self)@.active_state() {
                    Some(t) if host => old(self)@.emit(
                        EffectState::Find { tab: t.id, query: query@, forward, find_next: false },
                    ).with_active(TabState { find_query: Some(query@), ..t }),
                    _ => old(self)@,
                }
            },
    {
        let text = query.to_owned();
        if is_empty_text(query) {
            self.stop_find();
            return;
        }
        if let Some(a) = self.active {
            if host {
                let id = self.tabs[a].id;
                self.emit(
                    Effect::Find { tab: id, query: text.clone(), forward, find_next: false },
                );
                let ghost before = self@;
                self.tabs[a].session.find_query = Some(text);
                assert(self@ =~= before.with_active(
                    TabState { find_query: Some(query@), ..before.tabs[a as int] },
                ));
            }
        }
    }

    /// End the active tab's search.
    pub fn stop_find(&mut self)
        requires
            old(self)@.wf(),
        ensures
            final(self)@.wf(),
            final(self)@ == old(self)@.find_stopped(),
    {
        if let Some(a) = self.active {
            let id = self.tabs[a].id;
            self.emit_call(id, HostCall::StopFinding);
            let ghost before = self@;
            self.tabs[a].session.find_query = None;
            assert(self@ =~= before.with_active(
                TabState { find_query: None, ..before.tabs[a as int] },
            ));
        }
    }

    /// Go to the next or previous match of the active tab's search.
    fn find_step(&mut self, forward: bool)
        requires
            old(self)@.wf(),
        ensures
            final(self)@.wf(),
            final(self)@ == old(self)@.find_stepped(forward),
    {
        if let Some(a) = self.active {
            let id = self.tabs[a].id;
            let query = match &self.tabs[a].session.find_query {
                Some(q) => q.clone(),
                None => return,
            };
            self.emit(Effect::Find { tab: id, query, forward, find_next: true });
        }
    }
}

/// The request to lay out again, for every tab.
pub open spec fn resize_calls(tabs: Seq<TabState>) -> Seq<EffectState> {
    Seq::new(tabs.len(), |i: int| call(tabs[i].id, HostCall::WasResized))
}

impl HostState {
    /// An input event for the active browser. A native window gets its events
    /// itself.
    pub open spec fn forwarded(self, c: HostCall) -> Self {
        if self.mode == HostMode::Osr {
            self.emit_active(c)
        } else {
            self
        }
    }

    /// The active tab's search ended.
    pub open spec fn find_stopped(self) -> Self {
        match self.active_state() {
            Some(t) => self.emit(call(t.id, HostCall::StopFinding)).with_active(
                TabState { find_query: None, ..t },
            ),
            None => self,
        }
    }

    /// The active tab's search one match further.
    pub open spec fn find_stepped(self, forward: bool) -> Self {
        match self.active_state() {
            Some(t) => match t.find_query {
                Some(query) => self.emit(
                    EffectState::Find { tab: t.id, query, forward, find_next: true },
                ),
                None => self,
            },
            None => self,
        }
    }
}

/// How many labels are minted for a page.
pub const LABEL_BUDGET: usize = 256;

/// Pixels per scroll step.
pub const STEP_PX: i64 = 40;

/// Script that dims the overlays whose label does not start with `typed`.
pub open spec fn filter_code(typed: Seq<char>) -> Seq<char> {
    "if (window.__buffrHintFilter) window.__buffrHintFilter("@ + literal('"', typed) + ")"@
}

/// Script that clicks a hint target.
pub open spec fn commit_code(id: u32) -> Seq<char> {
    "if (window.__buffrHintCommit) window.__buffrHintCommit("@ + decimal(id as nat) + ")"@
}

/// Script that removes the overlays.
pub open spec fn cancel_code() -> Seq<char> {
    "if (window.__buffrHintCancel) window.__buffrHintCancel()"@
}

/// Script that scrolls the page.
pub open spec fn scroll_code(dx: int, dy: int) -> Seq<char> {
    "window.scrollBy("@ + signed_decimal(dx) + ", "@ + signed_decimal(dy) + ");"@
}

/// Script that calls an edit-mode function with text arguments.
pub open spec fn edit_code(head: Seq<char>, args: Seq<char>) -> Seq<char> {
    head + args + ")"@
}

/// Page actions of the modal engine.
#[derive(Debug, Clone, Copy, PartialEq, Eq, Structural)]
pub enum PageAction {
    ScrollUp(u32),
    ScrollDown(u32),
    ScrollLeft(u32),
    ScrollRight(u32),
    ScrollPageDown,
    ScrollPageUp,
    ScrollFullPageDown,
    ScrollFullPageUp,
    ScrollHalfPageDown,
    ScrollHalfPageUp,
    ScrollTop,
    ScrollBottom,
    HistoryBack,
    HistoryForward,
    Reload,
    ReloadHard,
    StopLoading,
    ZoomIn,
    ZoomOut,
    ZoomReset,
    OpenDevTools,
    Find { forward: bool },
    FindNext,
    FindPrev,
    TabNext,
    TabPrev,
    TabClose,
    TabNew,
    TabNewRight,
    TabNewLeft,
    PinTab,
    ReopenClosedTab,
    PasteUrl,
    TabReorder { from: u32, to: u32 },
    MoveTabLeft,
    MoveTabRight,
    OpenOmnibar,
    OpenCommandLine,
    EnterHintMode,
    EnterHintModeBackground,
    EnterMode,
    EnterInsertMode,
    FocusFirstInput,
    ExitInsertMode,
    ClearCompletedDownloads,
    YankUrl,
}

impl HostState {
    /// A script run in the active tab's main frame.
    pub open spec fn ran_js(self, code: Seq<char>, url: Seq<char>, line: i32) -> Self {
        match self.active_state() {
            Some(t) => self.emit(EffectState::RunJs { tab: t.id, code, url, line }),
            None => self,
        }
    }

    /// A page script run for an action.
    pub open spec fn ran_page_js(self, code: Seq<char>) -> Self {
        self.ran_js(code, "buffr://page-action"@, 0)
    }

    /// A hint-mode script.
    pub open spec fn ran_hint_js(self, code: Seq<char>) -> Self {
        self.ran_js(code, "buffr://hint"@, 1)
    }

    /// An edit-mode script.
    pub open spec fn ran_edit_js(self, code: Seq<char>) -> Self {
        self.ran_js(code, "buffr://edit"@, 1)
    }

    /// The active tab's hint session replaced.
    pub open spec fn hint_set(self, hint: Option<SessionState>) -> Self {
        match self.active_state() {
            Some(t) => self.with_active(TabState { hint, ..t }),
            None => self,
        }
    }

    /// The active tab's hint session.
    pub open spec fn hint(self) -> Option<SessionState> {
        match self.active_state() {
            Some(t) => t.hint,
            None => None,
        }
    }

    /// Hint mode left.
    pub open spec fn hint_cancelled(self) -> Self {
        self.ran_hint_js(cancel_code()).hint_set(None)
    }

    /// Hint mode entered on the active tab: an empty session that waits for
    /// the targets, and the script that finds them. Left at once if the main
    /// frame is not there.
    pub open spec fn hint_entered(self, background: bool, frame_url: Option<Seq<char>>) -> Self {
        match self.active_state() {
            Some(t) => {
                let s = self.hint_set(
                    Some(SessionState::started(self.alphabet, Seq::empty(), background)),
                );
                match frame_url {
                    Some(url) => s.emit(
                        EffectState::RunJs {
                            tab: t.id,
                            code: inject_script(
                                self.alphabet,
                                label_set(self.alphabet, LABEL_BUDGET as nat),
                                DEFAULT_HINT_SELECTORS@,
                            ),
                            url,
                            line: 1,
                        },
                    ),
                    None => s.hint_cancelled(),
                }
            },
            None => self,
        }
    }

    /// A renderer event taken in.
    pub open spec fn hint_event(self, event: HintConsoleEvent) -> Self {
        match event {
            HintConsoleEvent::Ready { hints, alphabet: _ } => match self.hint() {
                Some(s) => self.hint_set(
                    Some(SessionState::started(self.alphabet, hint_views(hints@), s.background)),
                ),
                None => self,
            },
            HintConsoleEvent::Error { message: _ } => self.hint_cancelled(),
        }
    }

    /// A key typed in hint mode.
    pub open spec fn hint_key(self, ch: char) -> Self {
        match self.hint() {
            Some(s) => {
                let after = self.hint_set(Some(s.fed(ch)));
                match s.fed(ch).action() {
                    HintAction::Filter => after.ran_hint_js(filter_code(s.fed(ch).typed)),
                    HintAction::Click(id) => after.ran_hint_js(commit_code(id)).hint_set(None),
                    HintAction::OpenInBackground(id) => after.ran_hint_js(commit_code(id)).hint_set(
                        None,
                    ),
                    HintAction::Cancel => after.hint_cancelled(),
                }
            },
            None => self,
        }
    }

    /// A backspace in hint mode.
    pub open spec fn hint_backspaced(self) -> Self {
        match self.hint() {
            Some(s) => {
                let after = self.hint_set(Some(s.backspaced()));
                if s.typed.len() == 0 {
                    after.hint_cancelled()
                } else {
                    after.ran_hint_js(filter_code(s.backspaced().typed))
                }
            },
            None => self,
        }
    }

    /// A page action carried out. `frame_url` is the URL of the active tab's
    /// main frame.
    pub open spec fn dispatched(self, action: PageAction, frame_url: Option<Seq<char>>) -> Self {
        match action {
            PageAction::ScrollUp(n) => self.ran_page_js(scroll_code(0, -(STEP_PX * n))),
            PageAction::ScrollDown(n) => self.ran_page_js(scroll_code(0, STEP_PX * n)),
            PageAction::ScrollLeft(n) => self.ran_page_js(scroll_code(-(STEP_PX * n), 0)),
            PageAction::ScrollRight(n) => self.ran_page_js(scroll_code(STEP_PX * n, 0)),
            PageAction::ScrollPageDown | PageAction::ScrollFullPageDown => self.ran_page_js(
                "window.scrollBy(0, window.innerHeight * 0.9);"@,
            ),
            PageAction::ScrollPageUp | PageAction::ScrollFullPageUp => self.ran_page_js(
                "window.scrollBy(0, -window.innerHeight * 0.9);"@,
            ),
            PageAction::ScrollHalfPageDown => self.ran_page_js(
                "window.scrollBy(0, window.innerHeight * 0.5);"@,
            ),
            PageAction::ScrollHalfPageUp => self.ran_page_js(
                "window.scrollBy(0, -window.innerHeight * 0.5);"@,
            ),
            PageAction::ScrollTop => self.ran_page_js("window.scrollTo(0, 0);"@),
            PageAction::ScrollBottom => self.ran_page_js(
                "window.scrollTo(0, document.body.scrollHeight);"@,
            ),
            PageAction::HistoryBack => self.emit_active(HostCall::GoBack),
            PageAction::HistoryForward => self.emit_active(HostCall::GoForward),
            PageAction::Reload => self.emit_active(HostCall::Reload),
            PageAction::ReloadHard => self.emit_active(HostCall::ReloadIgnoreCache),
            PageAction::StopLoading => self.emit_active(HostCall::StopLoad),
            PageAction::ZoomIn => self.emit_active(HostCall::ZoomIn),
            PageAction::ZoomOut => self.emit_active(HostCall::ZoomOut),
            PageAction::ZoomReset => self.emit(
                EffectState::ResetZoom {
                    tab: match self.active_state() {
                        Some(t) => Some(t.id),
                        None => None,
                    },
                },
            ),
            PageAction::OpenDevTools => self.emit_active(HostCall::ShowDevTools),
            PageAction::FindNext => self.find_stepped(true),
            PageAction::FindPrev => self.find_stepped(false),
            PageAction::TabNext => self.next(),
            PageAction::TabPrev => self.prev(),
            PageAction::TabClose => match self.active {
                Some(a) => self.closed_at(a as int),
                None => self,
            },
            PageAction::TabNew | PageAction::TabNewRight | PageAction::TabNewLeft => self.emit(
                EffectState::OpenTab { url: "about:blank"@ },
            ),
            PageAction::PinTab => match self.active_state() {
                Some(t) => self.with_active(TabState { pinned: !t.pinned, ..t }),
                None => self,
            },
            PageAction::ReopenClosedTab => self.reopened(),
            PageAction::TabReorder { from, to } => self.moved(from as int, to as int),
            PageAction::MoveTabLeft => match self.active {
                Some(a) => if a > 0 {
                    self.moved(a as int, a - 1)
                } else {
                    self
                },
                None => self,
            },
            PageAction::MoveTabRight => match self.active {
                Some(a) => if a + 1 < self.tabs.len() {
                    self.moved(a as int, a + 1)
                } else {
                    self
                },
                None => self,
            },
            PageAction::EnterHintMode => self.hint_entered(false, frame_url),
            PageAction::EnterHintModeBackground => self.hint_entered(true, frame_url),
            PageAction::FocusFirstInput => self.ran_page_js(FOCUS_FIRST_INPUT@),
            PageAction::ExitInsertMode => self.ran_page_js(EXIT_INSERT@),
            PageAction::ClearCompletedDownloads => self.emit(EffectState::ClearCompletedDownloads),
            PageAction::YankUrl => self.emit_active(HostCall::YankUrl),
            PageAction::Find { .. } | PageAction::PasteUrl | PageAction::OpenOmnibar
            | PageAction::OpenCommandLine | PageAction::EnterMode | PageAction::EnterInsertMode => self,
        }
    }
}

impl BrowserHost {
    /// Queue a script for the active tab's main frame.
    fn run_main_frame_js(&mut self, code: &str, url: &str, line: i32)
        ensures
            final(self)@ == old(self)@.ran_js(code@, url@, line),
    {
        if let Some(a) = self.active {
            if a < self.tabs.len() {
                let id = self.tabs[a].id;
                self.emit(
                    Effect::RunJs { tab: id, code: code.to_owned(), url: url.to_owned(), line },
                );
            }
        }
    }

    /// Run a script in the active tab.
    pub fn run_js(&mut self, code: &str)
        ensures
            final(self)@ == old(self)@.ran_page_js(code@),
    {
        self.run_main_frame_js(code, "buffr://page-action", 0);
    }

    fn run_hint_js(&mut self, code: &str)
        ensures
            final(self)@ == old(self)@.ran_hint_js(code@),
    {
        self.run_main_frame_js(code, "buffr://hint", 1);
    }

    fn run_edit_js(&mut self, code: &str)
        ensures
            final(self)@ == old(self)@.ran_edit_js(code@),
    {
        self.run_main_frame_js(code, "buffr://edit", 1);
    }

    fn scroll_by(&mut self, dx: i64, dy: i64)
        requires
            dx > i64::MIN,
            dy > i64::MIN,
        ensures
            final(self)@ == old(self)@.ran_page_js(scroll_code(dx as int, dy as int)),
    {
        let mut code = "window.scrollBy(".to_owned();
        push_signed(&mut code, dx);
        push_str(&mut code, ", ");
        push_signed(&mut code, dy);
        push_str(&mut code, ");");
        assert(code@ == scroll_code(dx as int, dy as int));
        self.run_js(code.as_str());
    }

    /// Put `hint` in place of the active tab's hint session.
    fn set_hint(&mut self, hint: Option<HintSession>)
        requires
            old(self)@.wf(),
        ensures
            final(self)@.wf(),
            final(self)@ == old(self)@.hint_set(
                match hint {
                    Some(s) => Some(s@),
                    None => None,
                },
            ),
    {
        if let Some(a) = self.active {
            self.tabs[a].session.hint_session = hint;
            assert(self@ =~= old(self)@.hint_set(
                match hint {
                    Some(s) => Some(s@),
                    None => None,
                },
            ));
        }
    }

    /// Take the active tab's hint session out.
    fn take_hint(&mut self) -> (r: Option<HintSession>)
        requires
            old(self)@.wf(),
        ensures
            final(self)@.wf(),
            final(self)@ == old(self)@.hint_set(None),
            match (r, old(self)@.hint()) {
                (Some(s), Some(t)) => s@ == t,
                (None, None) => true,
                _ => false,
            },
    {
        match self.active {
            Some(a) => {
                let r = self.tabs[a].session.hint_session.take();
                assert(self@ =~= old(self)@.hint_set(None));
                r
            },
            None => None,
        }
    }

    /// Snapshot of the active tab's hint mode.
    pub fn hint_status(&self) -> (r: Option<HintStatus>)
        requires
            self@.wf(),
        ensures
            match (r, self@.hint()) {
                (Some(h), Some(s)) => h.typed@ == s.typed && h.match_count == s.matches.len()
                    && h.background == s.background,
                (None, None) => true,
                _ => false,
            },
    {
        match self.active {
            Some(a) => match &self.tabs[a].session.hint_session {
                Some(s) => Some(
                    HintStatus {
                        typed: s.typed.clone(),
                        match_count: s.match_count(),
                        background: s.background,
                    },
                ),
                None => None,
            },
            None => None,
        }
    }

    /// Whether the active tab is in hint mode.
    pub fn is_hint_mode(&self) -> (r: bool)
        requires
            self@.wf(),
        ensures
            r == (self@.hint() is Some),
    {
        match self.active {
            Some(a) => self.tabs[a].session.hint_session.is_some(),
            None => false,
        }
    }

    /// Whether the active tab's hint session is in the state of `session`.
    fn in_session(&self, session: &HintSession) -> (r: bool)
        requires
            self@.wf(),
        ensures
            r == (self@.hint() == Some(session@)),
    {
        match self.active {
            Some(a) => match &self.tabs[a].session.hint_session {
                Some(s) => s.same_as(session),
                None => false,
            },
            None => false,
        }
    }

    /// Enter hint mode on the active tab. `frame_url` is the URL of its main
    /// frame, if the frame is there.
    pub fn enter_hint_mode(&mut self, background: bool, frame_url: Option<&str>)
        requires
            old(self)@.wf(),
        ensures
            final(self)@.wf(),
            final(self)@ == old(self)@.hint_entered(background, str_view(frame_url)),
    {
        let labels = self.hint_alphabet.labels_for(LABEL_BUDGET);
        let alphabet = self.hint_alphabet.as_string();
        let script = build_inject_script(
            alphabet.as_str(),
            labels.as_slice(),
            DEFAULT_HINT_SELECTORS,
        );
        if let Some(a) = self.active {
            let id = self.tabs[a].id;
            let session = HintSession::new(self.hint_alphabet.clone(), Vec::new(), background);
            assert(session@ == SessionState::started(self@.alphabet, Seq::empty(), background));
            self.set_hint(Some(session));
            match frame_url {
                Some(url) => {
                    self.emit(Effect::RunJs { tab: id, code: script, url: url.to_owned(), line: 1 });
                },
                None => {
                    self.cancel_hint();
                },
            }
        }
    }

    /// Take the renderer's latest hint event in. `true` if the active tab's hint
    /// session changed.
    pub fn pump_hint_events(&mut self, sink: &mut HintEventSink) -> (r: bool)
        requires
            old(self)@.wf(),
        ensures
            final(self)@.wf(),
            *final(sink) is None,
            r == (final(self)@.hint() != old(self)@.hint()),
            final(self)@ == match *old(sink) {
                Some(event) => old(self)@.hint_event(event),
                None => old(self)@,
            },
    {
        match take_hint_event(sink) {
            None => false,
            Some(event) => {
                match event {
                    HintConsoleEvent::Ready { hints, alphabet: _ } => {
                        let background = match self.hint_status() {
                            Some(h) => h.background,
                            None => return false,
                        };
                        let session = HintSession::new(self.hint_alphabet.clone(), hints, background);
                        let changed = !self.in_session(&session);
                        self.set_hint(Some(session));
                        changed
                    },
                    HintConsoleEvent::Error { message: _ } => {
                        let changed = self.is_hint_mode();
                        self.cancel_hint();
                        changed
                    },
                }
            },
        }
    }

    /// Feed a character to the active tab's hint session. `None` outside hint
    /// mode.
    pub fn feed_hint_key(&mut self, ch: char) -> (r: Option<HintAction>)
        requires
            old(self)@.wf(),
        ensures
            final(self)@.wf(),
            final(self)@ == old(self)@.hint_key(ch),
            r == match old(self)@.hint() {
                Some(s) => Some(s.fed(ch).action()),
                None => None,
            },
    {
        let ghost start = self@;
        let mut session = match self.take_hint() {
            Some(s) => s,
            None => {
                assert(self@ =~= start);
                return None;
            },
        };
        let action = session.feed(ch);
        let ghost after = session@;
        let typed = session.typed.clone();
        self.set_hint(Some(session));
        assert(self@ =~= start.hint_set(Some(after)));
        match action {
            HintAction::Filter => {
                let code = filter_script(typed.as_str());
                self.run_hint_js(code.as_str());
            },
            HintAction::Click(id) => {
                let code = commit_script(id);
                self.run_hint_js(code.as_str());
                self.set_hint(None);
            },
            HintAction::OpenInBackground(id) => {
                let code = commit_script(id);
                self.run_hint_js(code.as_str());
                self.set_hint(None);
            },
            HintAction::Cancel => {
                self.cancel_hint();
            },
        }
        Some(action)
    }

    /// A backspace for the active tab's hint session. `None` outside hint
    /// mode.
    pub fn backspace_hint(&mut self) -> (r: Option<HintAction>)
        requires
            old(self)@.wf(),
        ensures
            final(self)@.wf(),
            final(self)@ == old(self)@.hint_backspaced(),
            r == match old(self)@.hint() {
                Some(s) => Some(
                    if s.typed.len() == 0 {
                        HintAction::Cancel
                    } else {
                        HintAction::Filter
                    },
                ),
                None => None,
            },
    {
        let ghost start = self@;
        let mut session = match self.take_hint() {
            Some(s) => s,
            None => {
                assert(self@ =~= start);
                return None;
            },
        };
        let action = session.backspace();
        let ghost after = session@;
        let typed = session.typed.clone();
        self.set_hint(Some(session));
        assert(self@ =~= start.hint_set(Some(after)));
        match action {
            HintAction::Filter => {
                let code = filter_script(typed.as_str());
                self.run_hint_js(code.as_str());
            },
            _ => {
                self.cancel_hint();
            },
        }
        Some(action)
    }

    /// Leave hint mode on the active tab.
    pub fn cancel_hint(&mut self)
        requires
            old(self)@.wf(),
        ensures
            final(self)@.wf(),
            final(self)@ == old(self)@.hint_cancelled(),
    {
        self.run_hint_js("if (window.__buffrHintCancel) window.__buffrHintCancel()");
        self.set_hint(None);
    }

    /// Write `value` into a field.
    pub fn run_edit_apply(&mut self, field_id: &str, value: &str)
        ensures
            final(self)@ == old(self)@.ran_edit_js(
                edit_code(
                    "if (window.__buffrEditApply) window.__buffrEditApply("@,
                    json_text(field_id@) + ", "@ + json_text(value@),
                ),
            ),
    {
        let mut args = quoted(field_id);
        push_str(&mut args, ", ");
        let v = quoted(value);
        push_str(&mut args, v.as_str());
        let code = edit_script(
            "if (window.__buffrEditApply) window.__buffrEditApply(",
            args.as_str(),
        );
        self.run_edit_js(code.as_str());
    }

    /// Mark a field as under edit.
    pub fn run_edit_attach(&mut self, field_id: &str)
        ensures
            final(self)@ == old(self)@.ran_edit_js(
                edit_code(
                    "if (window.__buffrEditAttach) window.__buffrEditAttach("@,
                    json_text(field_id@),
                ),
            ),
    {
        let args = quoted(field_id);
        let code = edit_script(
            "if (window.__buffrEditAttach) window.__buffrEditAttach(",
            args.as_str(),
        );
        self.run_edit_js(code.as_str());
    }

    /// Give a field the focus again.
    pub fn run_edit_focus(&mut self, field_id: &str)
        ensures
            final(self)@ == old(self)@.ran_edit_js(
                edit_code(
                    "if (window.__buffrEditFocus) window.__buffrEditFocus("@,
                    json_text(field_id@),
                ),
            ),
    {
        let args = quoted(field_id);
        let code = edit_script(
            "if (window.__buffrEditFocus) window.__buffrEditFocus(",
            args.as_str(),
        );
        self.run_edit_js(code.as_str());
    }

    /// Move the focus to the next or previous visible input.
    pub fn run_edit_cycle(&mut self, forward: bool)
        ensures
            final(self)@ == old(self)@.ran_edit_js(
                edit_code(
                    "if (window.__buffrCycleInput) window.__buffrCycleInput("@,
                    if forward {
                        "true"@
                    } else {
                        "false"@
                    },
                ),
            ),
    {
        let arg = if forward {
            "true"
        } else {
            "false"
        };
        let code = edit_script("if (window.__buffrCycleInput) window.__buffrCycleInput(", arg);
        self.run_edit_js(code.as_str());
    }

    /// Unmark a field.
    pub fn run_edit_detach(&mut self, field_id: &str)
        ensures
            final(self)@ == old(self)@.ran_edit_js(
                edit_code(
                    "if (window.__buffrEditDetach) window.__buffrEditDetach("@,
                    json_text(field_id@),
                ),
            ),
    {
        let args = quoted(field_id);
        let code = edit_script(
            "if (window.__buffrEditDetach) window.__buffrEditDetach(",
            args.as_str(),
        );
        self.run_edit_js(code.as_str());
    }

    /// Carry out a page action on the active tab. `frame_url` is the URL of
    /// its main frame, if the frame is there.
    pub fn dispatch(&mut self, action: PageAction, frame_url: Option<&str>)
        requires
            old(self)@.wf(),
        ensures
            final(self)@.wf(),
            final(self)@ == old(self)@.dispatched(action, str_view(frame_url)),
            action == PageAction::FindNext || action == PageAction::FindPrev ==> final(self)@ == match (
                old(self)@.active_state()) {
                Some(t) if t.find_query is Some => HostState {
                    effects: old(self)@.effects.push(
                        EffectState::Find {
                            tab: t.id,
                            query: t.find_query->0,
                            forward: action == PageAction::FindNext,
                            find_next: true,
                        },
                    ),
                    ..old(self)@
                },
                _ => old(self)@,
            },
    {
        match action {
            PageAction::ScrollUp(n) => self.scroll_by(0, -(STEP_PX * (n as i64))),
            PageAction::ScrollDown(n) => self.scroll_by(0, STEP_PX * (n as i64)),
            PageAction::ScrollLeft(n) => self.scroll_by(-(STEP_PX * (n as i64)), 0),
            PageAction::ScrollRight(n) => self.scroll_by(STEP_PX * (n as i64), 0),
            PageAction::ScrollPageDown | PageAction::ScrollFullPageDown => self.run_js(
                "window.scrollBy(0, window.innerHeight * 0.9);",
            ),
            PageAction::ScrollPageUp | PageAction::ScrollFullPageUp => self.run_js(
                "window.scrollBy(0, -window.innerHeight * 0.9);",
            ),
            PageAction::ScrollHalfPageDown => self.run_js(
                "window.scrollBy(0, window.innerHeight * 0.5);",
            ),
            PageAction::ScrollHalfPageUp => self.run_js(
                "window.scrollBy(0, -window.innerHeight * 0.5);",
            ),
            PageAction::ScrollTop => self.run_js("window.scrollTo(0, 0);"),
            PageAction::ScrollBottom => self.run_js(
                "window.scrollTo(0, document.body.scrollHeight);",
            ),
            PageAction::HistoryBack => self.emit_active(HostCall::GoBack),
            PageAction::HistoryForward => self.emit_active(HostCall::GoForward),
            PageAction::Reload => self.emit_active(HostCall::Reload),
            PageAction::ReloadHard => self.emit_active(HostCall::ReloadIgnoreCache),
            PageAction::StopLoading => self.emit_active(HostCall::StopLoad),
            PageAction::ZoomIn => self.emit_active(HostCall::ZoomIn),
            PageAction::ZoomOut => self.emit_active(HostCall::ZoomOut),
            PageAction::ZoomReset => {
                let tab = match self.active {
                    Some(a) => Some(self.tabs[a].id),
                    None => None,
                };
                self.emit(Effect::ResetZoom { tab });
            },
            PageAction::OpenDevTools => self.emit_active(HostCall::ShowDevTools),
            PageAction::FindNext => self.find_step(true),
            PageAction::FindPrev => self.find_step(false),
            PageAction::TabNext => self.next_tab(),
            PageAction::TabPrev => self.prev_tab(),
            PageAction::TabClose => {
                let _ = self.close_active();
            },
            PageAction::TabNew | PageAction::TabNewRight | PageAction::TabNewLeft => {
                self.emit(Effect::OpenTab { url: "about:blank".to_owned() });
            },
            PageAction::PinTab => self.toggle_pin_active(),
            PageAction::ReopenClosedTab => {
                let _ = self.reopen_closed_tab();
            },
            PageAction::TabReorder { from, to } => self.move_tab(from as usize, to as usize),
            PageAction::MoveTabLeft => {
                if let Some(a) = self.active {
                    if a > 0 {
                        self.move_tab(a, a - 1);
                    }
                }
            },
            PageAction::MoveTabRight => {
                let len: usize = self.tabs.len();
                if let Some(a) = self.active {
                    if a + 1 < len {
                        self.move_tab(a, a + 1);
                    }
                }
            },
            PageAction::EnterHintMode => self.enter_hint_mode(false, frame_url),
            PageAction::EnterHintModeBackground => self.enter_hint_mode(true, frame_url),
            PageAction::FocusFirstInput => self.run_js(FOCUS_FIRST_INPUT),
            PageAction::ExitInsertMode => self.run_js(EXIT_INSERT),
            PageAction::ClearCompletedDownloads => self.emit(Effect::ClearCompletedDownloads),
            PageAction::YankUrl => self.emit_active(HostCall::YankUrl),
            PageAction::Find { .. } | PageAction::PasteUrl | PageAction::OpenOmnibar
            | PageAction::OpenCommandLine | PageAction::EnterMode | PageAction::EnterInsertMode => {},
        }
    }
}

/// View of an optional string slice.
pub open spec fn str_view(s: Option<&str>) -> Option<Seq<char>> {
    match s {
        Some(t) => Some(t@),
        None => None,
    }
}

/// The call that dims what does not match.
fn filter_script(typed: &str) -> (r: String)
    ensures
        r@ == filter_code(typed@),
{
    let mut code = "if (window.__buffrHintFilter) window.__buffrHintFilter(".to_owned();
    let arg = json_string_literal(typed);
    push_str(&mut code, arg.as_str());
    push_str(&mut code, ")");
    code
}

/// The call that clicks a target.
fn commit_script(id: u32) -> (r: String)
    ensures
        r@ == commit_code(id),
{
    let mut code = "if (window.__buffrHintCommit) window.__buffrHintCommit(".to_owned();
    push_decimal(&mut code, id as u64);
    push_str(&mut code, ")");
    code
}

/// A call of an edit-mode function.
fn edit_script(head: &str, args: &str) -> (r: String)
    ensures
        r@ == edit_code(head@, args@),
{
    let mut code = head.to_owned();
    push_str(&mut code, args);
    push_str(&mut code, ")");
    code
}

/// `s` as a JSON string.
fn quoted(s: &str) -> (r: String)
    ensures
        r@ == json_text(s@),
{
    match json_quote(s) {
        Some(t) => t,
        None => "\"\"".to_owned(),
    }
}

/// A change of the active tab that keeps its id keeps what is shown.
proof fn lemma_same_id(s: HostState, before: Set<TabId>, t: TabState)
    requires
        s.wf(),
        s.active_state() is Some,
        t.id == s.active_state()->0.id,
        s.only_active_shown(before),
        s.ids_unique(),
    ensures
        s.with_active(t).only_active_shown(before),
        s.with_active(t).ids_unique(),
        s.with_active(t).wf(),
{
    let r = s.with_active(t);
    assert forall|k: int| 0 <= k < r.tabs.len() implies (#[trigger] r.tabs[k]).id == s.tabs[k].id by {}
}

/// Leaving hint mode keeps what is shown.
proof fn lemma_hint_cancelled(s: HostState, before: Set<TabId>)
    requires
        s.wf(),
        s.only_active_shown(before),
        s.ids_unique(),
    ensures
        s.hint_cancelled().only_active_shown(before),
        s.hint_cancelled().ids_unique(),
        s.hint_cancelled().wf(),
{
    if let Some(t) = s.active_state() {
        let e = EffectState::RunJs {
            tab: t.id,
            code: cancel_code(),
            url: "buffr://hint"@,
            line: 1,
        };
        lemma_emit_other(s, before, e);
        lemma_same_id(s.emit(e), before, TabState { hint: None, ..t });
    }
}

/// Whatever page action is carried out, ids stay unique and only the active
/// tab is visible afterwards.
pub proof fn law_dispatch_shows_only_active(
    s: HostState,
    before: Set<TabId>,
    action: PageAction,
    frame_url: Option<Seq<char>>,
)
    requires
        s.wf(),
        s.tabs.len() < usize::MAX,
        s.ids_unique(),
        s.only_active_shown(before),
    ensures
        s.dispatched(action, frame_url).only_active_shown(before),
        s.dispatched(action, frame_url).ids_unique(),
{
    let r = s.dispatched(action, frame_url);
    match action {
        PageAction::TabNext => {
            if s.tabs.len() > 1 {
                vstd::arithmetic::div_mod::lemma_mod_bound(s.current() + 1, s.tabs.len() as int);
                law_activation_shows_only_active(
                    s,
                    before,
                    (s.current() + 1) % (s.tabs.len() as int),
                );
            }
        },
        PageAction::TabPrev => {
            if s.tabs.len() > 1 {
                law_activation_shows_only_active(s, before, s.tabs.len() - 1);
                if s.current() > 0 {
                    law_activation_shows_only_active(s, before, s.current() - 1);
                }
            }
        },
        PageAction::TabClose => {
            if let Some(a) = s.active {
                law_closing_shows_only_active(s, before, a as int);
            }
        },
        PageAction::ReopenClosedTab => {
            law_reopening_shows_only_active(s, before);
        },
        PageAction::TabReorder { from, to } => {
            law_moving_keeps_active_tab(s, before, from as int, to as int);
        },
        PageAction::MoveTabLeft => {
            if let Some(a) = s.active {
                if a > 0 {
                    law_moving_keeps_active_tab(s, before, a as int, a - 1);
                }
            }
        },
        PageAction::MoveTabRight => {
            if let Some(a) = s.active {
                law_moving_keeps_active_tab(s, before, a as int, a + 1);
            }
        },
        PageAction::PinTab => {
            if let Some(t) = s.active_state() {
                lemma_same_id(s, before, TabState { pinned: !t.pinned, ..t });
            }
        },
        PageAction::EnterHintMode | PageAction::EnterHintModeBackground => {
            if let Some(t) = s.active_state() {
                let background = action == PageAction::EnterHintModeBackground;
                let hint = Some(SessionState::started(s.alphabet, Seq::empty(), background));
                let set = s.hint_set(hint);
                lemma_same_id(s, before, TabState { hint, ..t });
                match frame_url {
                    Some(url) => {
                        lemma_emit_other(set, before, r.effects.last());
                    },
                    None => {
                        lemma_hint_cancelled(set, before);
                    },
                }
            }
        },
        _ => {
            if r.effects.len() > s.effects.len() {
                assert(r == s.emit(r.effects.last()));
                lemma_emit_other(s, before, r.effects.last());
            }
        },
    }
}

impl HostState {
    /// Every hint session shows exactly the targets that match what was typed.
    pub open spec fn sessions_consistent(self) -> bool {
        forall|i: int|
            0 <= i < self.tabs.len() ==> ((#[trigger] self.tabs[i]).hint matches Some(h)
                ==> h.consistent())
    }
}

/// Keys, backspaces and renderer events keep the candidates of every hint
/// session exact.
pub proof fn law_hint_sessions_stay_consistent(s: HostState, ch: char, event: HintConsoleEvent)
    requires
        s.wf(),
        s.sessions_consistent(),
    ensures
        s.hint_key(ch).sessions_consistent(),
        s.hint_backspaced().sessions_consistent(),
        s.hint_event(event).sessions_consistent(),
{
    if let Some(h) = s.hint() {
        law_feed_keeps_consistency(h, ch);
        law_backspace_keeps_consistency(h);
        if let HintConsoleEvent::Ready { hints, alphabet } = event {
            assert(hints@.len() == hints.len());
            law_started_is_consistent(s.alphabet, hint_views(hints@), h.background);
        }
    }
}

/// A key that commits or cancels leaves hint mode; any other key stays in it.
pub proof fn law_hint_mode_ends_on_commit(s: HostState, ch: char)
    requires
        s.wf(),
        s.hint() is Some,
    ensures
        s.hint_key(ch).hint() is Some <==> s.hint()->0.fed(ch).action() == HintAction::Filter,
{
}

} // verus!
