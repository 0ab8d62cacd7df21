//! Mathematical model of the tab strip and its laws.
//!
//! [`HostState`] is what a [`crate::host::BrowserHost`] holds, and each of its
//! methods is the effect of one host operation. The requests that an operation
//! makes of the browsers are appended to `effects`, in order.
use crate::hint::SessionState;
use crate::host::{HostCall, HostMode, TabId, CLOSED_STACK_CAP};
use vstd::prelude::*;

verus! {

/// State of one tab.
#[verifier::ext_equal]
pub struct TabState {
    pub id: TabId,
    pub browser_id: i32,
    pub url: Seq<char>,
    pub title: Option<Seq<char>>,
    pub progress: u32,
    pub is_loading: bool,
    pub pinned: bool,
    pub find_query: Option<Seq<char>>,
    pub hint: Option<SessionState>,
}

/// A closed tab that can be reopened, with its position in the strip.
#[verifier::ext_equal]
pub struct ClosedState {
    pub tab: TabState,
    pub index: usize,
}

/// A request of the host to a browser or to its environment.
#[verifier::ext_equal]
pub enum EffectState {
    Call { tab: TabId, call: HostCall },
    RunJs { tab: TabId, code: Seq<char>, url: Seq<char>, line: i32 },
    LoadUrl { tab: TabId, url: Seq<char> },
    Find { tab: TabId, query: Seq<char>, forward: bool, find_next: bool },
    OpenTab { url: Seq<char> },
    ResetZoom { tab: Option<TabId> },
    ClearCompletedDownloads,
    CountTabOpened,
}

/// State of the host.
#[verifier::ext_equal]
pub struct HostState {
    pub tabs: Seq<TabState>,
    pub active: Option<usize>,
    pub next_id: u64,
    pub last_size: (u32, u32),
    pub private: bool,
    pub mode: HostMode,
    pub alphabet: Seq<char>,
    pub closed: Seq<ClosedState>,
    pub effects: Seq<EffectState>,
}

/// Position of the first tab with this id, or the number of tabs.
pub open spec fn position(tabs: Seq<TabState>, id: TabId) -> int
    decreases tabs.len(),
{
    if tabs.len() == 0 {
        0
    } else if tabs[0].id == id {
        0
    } else {
        1 + position(tabs.drop_first(), id)
    }
}

/// Position of the first tab with this browser, or the number of tabs.
pub open spec fn browser_position(tabs: Seq<TabState>, browser_id: i32) -> int
    decreases tabs.len(),
{
    if tabs.len() == 0 {
        0
    } else if tabs[0].browser_id == browser_id {
        0
    } else {
        1 + browser_position(tabs.drop_first(), browser_id)
    }
}

/// Whether a closed tab with this URL is worth keeping: blank pages are not.
pub open spec fn stashable(url: Seq<char>) -> bool {
    url.len() > 0 && url != "about:blank"@
}

/// A call on one browser.
pub open spec fn call(tab: TabId, call: HostCall) -> EffectState {
    EffectState::Call { tab, call }
}

/// The smaller of two numbers.
pub open spec fn least(x: int, y: int) -> int {
    if x <= y {
        x
    } else {
        y
    }
}

impl HostState {
    /// The active tab exists and the stack of closed tabs is bounded.
    pub open spec fn wf(self) -> bool {
        &&& self.tabs.len() <= usize::MAX
        &&& self.active matches Some(a) ==> a < self.tabs.len()
        &&& self.closed.len() <= CLOSED_STACK_CAP
    }

    /// A host without tabs.
    pub open spec fn empty(
        mode: HostMode,
        alphabet: Seq<char>,
        last_size: (u32, u32),
        private: bool,
    ) -> Self {
        HostState {
            tabs: Seq::empty(),
            active: None,
            next_id: 0,
            last_size,
            private,
            mode,
            alphabet,
            closed: Seq::empty(),
            effects: Seq::empty(),
        }
    }

    /// The active tab's state.
    pub open spec fn active_state(self) -> Option<TabState> {
        match self.active {
            Some(a) => if a < self.tabs.len() {
                Some(self.tabs[a as int])
            } else {
                None
            },
            None => None,
        }
    }

    /// The state with one more request.
    pub open spec fn emit(self, effect: EffectState) -> Self {
        HostState { effects: self.effects.push(effect), ..self }
    }

    /// The state with one more request to the active tab's browser, if there
    /// is one.
    pub open spec fn emit_active(self, c: HostCall) -> Self {
        match self.active_state() {
            Some(t) => self.emit(call(t.id, c)),
            None => self,
        }
    }

    /// The state with the active tab replaced.
    pub open spec fn with_active(self, t: TabState) -> Self {
        match self.active {
            Some(a) => HostState { tabs: self.tabs.update(a as int, t), ..self },
            None => self,
        }
    }

    /// Tab number `i` becomes active: the previous one is hidden and loses
    /// the focus, the new one is shown, resized and focused.
    pub open spec fn activated(self, i: int) -> Self {
        if i < self.tabs.len() {
            let hidden = match self.active {
                Some(p) => if p < self.tabs.len() && p != i {
                    self.emit(call(self.tabs[p as int].id, HostCall::WasHidden(true))).emit(
                        call(self.tabs[p as int].id, HostCall::SetFocus(false)),
                    )
                } else {
                    self
                },
                None => self,
            };
            let id = self.tabs[i].id;
            let shown = hidden.emit(call(id, HostCall::WasHidden(false))).emit(
                call(id, HostCall::WasResized),
            ).emit(call(id, HostCall::SetFocus(true)));
            HostState { active: Some(i as usize), ..shown }
        } else {
            self
        }
    }

    /// A new tab.
    pub open spec fn new_tab(self, browser_id: i32, url: Seq<char>) -> TabState {
        TabState {
            id: TabId(self.next_id),
            browser_id,
            url,
            title: None,
            progress: 1000,
            is_loading: false,
            pinned: false,
            find_query: None,
            hint: None,
        }
    }

    /// A new tab at the end of the strip, active unless it was opened in the
    /// background.
    pub open spec fn added(self, browser_id: i32, url: Seq<char>, background: bool) -> Self {
        let s = HostState {
            tabs: self.tabs.push(self.new_tab(browser_id, url)),
            next_id: self.next_id.wrapping_add(1),
            ..self
        };
        let placed = if background {
            s.emit(call(TabId(self.next_id), HostCall::WasHidden(true)))
        } else {
            s.activated(self.tabs.len() as int)
        };
        placed.emit(EffectState::CountTabOpened)
    }

    /// `tab` inserted at `pos`; the active index follows its tab.
    pub open spec fn inserted(self, pos: int, tab: TabState) -> Self {
        HostState {
            tabs: self.tabs.insert(pos, tab),
            active: match self.active {
                Some(a) => if a >= pos {
                    Some((a + 1) as usize)
                } else {
                    Some(a)
                },
                None => None,
            },
            ..self
        }
    }

    /// Tab number `i` taken out; the active index follows its tab.
    pub open spec fn taken(self, i: int) -> Self {
        HostState {
            tabs: self.tabs.remove(i),
            active: match self.active {
                Some(a) => if a == i {
                    None
                } else if a > i {
                    Some((a - 1) as usize)
                } else {
                    Some(a)
                },
                None => None,
            },
            ..self
        }
    }

    /// A new active tab at position `at`, or at the end.
    pub open spec fn added_at(self, browser_id: i32, url: Seq<char>, at: int) -> Self {
        let s = self.added(browser_id, url, true);
        let end = self.tabs.len() as int;
        let pos = least(at, end);
        s.taken(end).inserted(pos, s.tabs[end]).activated(pos)
    }

    /// `tab`, taken out of position `i`, is hidden and kept for reopening. The
    /// oldest kept tab gives way when there are too many.
    pub open spec fn stashed(self, tab: TabState, i: int) -> Self {
        let hidden = self.emit(call(tab.id, HostCall::WasHidden(true))).emit(
            call(tab.id, HostCall::SetFocus(false)),
        );
        let closed = self.closed.push(ClosedState { tab, index: i as usize });
        if closed.len() > CLOSED_STACK_CAP {
            HostState {
                closed: closed.drop_first(),
                ..hidden.emit(call(closed[0].tab.id, HostCall::CloseBrowser))
            }
        } else {
            HostState { closed, ..hidden }
        }
    }

    /// Tab number `i` closed. The tab after it becomes active, or the last.
    pub open spec fn closed_at(self, i: int) -> Self {
        if i >= self.tabs.len() {
            self
        } else {
            let tab = self.tabs[i];
            let s = if stashable(tab.url) {
                self.taken(i).stashed(tab, i)
            } else {
                self.taken(i).emit(call(tab.id, HostCall::CloseBrowser))
            };
            if s.tabs.len() == 0 {
                s
            } else {
                s.activated(least(i, s.tabs.len() - 1))
            }
        }
    }

    /// The most recently closed tab back at its position, active.
    pub open spec fn reopened(self) -> Self {
        if self.closed.len() == 0 {
            self
        } else {
            let entry = self.closed.last();
            let pos = least(entry.index as int, self.tabs.len() as int);
            let s = HostState { closed: self.closed.drop_last(), ..self }.inserted(pos, entry.tab);
            s.emit(call(entry.tab.id, HostCall::WasHidden(false))).emit(
                call(entry.tab.id, HostCall::WasResized),
            ).activated(pos)
        }
    }

    /// The tab at `from` moved to `to`, both clamped to the strip.
    pub open spec fn moved(self, from: int, to: int) -> Self {
        let last = self.tabs.len() - 1;
        let f = least(from, last);
        let t = least(to, last);
        if self.tabs.len() == 0 || f == t {
            self
        } else {
            HostState {
                tabs: self.tabs.remove(f).insert(t, self.tabs[f]),
                active: match self.active {
                    Some(a) => Some(
                        (if a == f {
                            t
                        } else if f < a && t >= a {
                            a - 1
                        } else if f > a && t <= a {
                            a + 1
                        } else {
                            a as int
                        }) as usize,
                    ),
                    None => None,
                },
                ..self
            }
        }
    }

    /// The next tab active, the first after the last.
    pub open spec fn next(self) -> Self {
        if self.tabs.len() <= 1 {
            self
        } else {
            self.activated((self.current() + 1) % (self.tabs.len() as int))
        }
    }

    /// The previous tab active, the last before the first.
    pub open spec fn prev(self) -> Self {
        if self.tabs.len() <= 1 {
            self
        } else if self.current() == 0 {
            self.activated(self.tabs.len() - 1)
        } else {
            self.activated(self.current() - 1)
        }
    }

    /// The active index, or 0 without an active tab.
    pub open spec fn current(self) -> int {
        match self.active {
            Some(a) => a as int,
            None => 0,
        }
    }
}

/// Whether the browser of tab `id` is shown once `effects` were performed,
/// given the set of those shown before.
pub open spec fn shown(before: Set<TabId>, effects: Seq<EffectState>, id: TabId) -> bool
    decreases effects.len(),
{
    if effects.len() == 0 {
        before.contains(id)
    } else {
        match effects.last() {
            EffectState::Call { tab, call: HostCall::WasHidden(hidden) } => if tab == id {
                !hidden
            } else {
                shown(before, effects.drop_last(), id)
            },
            _ => shown(before, effects.drop_last(), id),
        }
    }
}

impl HostState {
    /// Ids are handed out once: all are below the next one and no two tabs,
    /// open or closed, share one.
    pub open spec fn ids_unique(self) -> bool {
        &&& forall|i: int| 0 <= i < self.tabs.len() ==> (#[trigger] self.tabs[i]).id.0 < self.next_id
        &&& forall|i: int|
            0 <= i < self.closed.len() ==> (#[trigger] self.closed[i]).tab.id.0 < self.next_id
        &&& forall|i: int, j: int|
            0 <= i < j < self.tabs.len() ==> (#[trigger] self.tabs[i]).id != (
            #[trigger] self.tabs[j]).id
        &&& forall|i: int, j: int|
            0 <= i < j < self.closed.len() ==> (#[trigger] self.closed[i]).tab.id != (
            #[trigger] self.closed[j]).tab.id
        &&& forall|i: int, j: int|
            0 <= i < self.tabs.len() && 0 <= j < self.closed.len() ==> (#[trigger] self.tabs[i]).id
                != (#[trigger] self.closed[j]).tab.id
    }

    /// Once the pending effects are performed, the active tab is shown and
    /// every other tab, open or closed, is hidden.
    pub open spec fn only_active_shown(self, before: Set<TabId>) -> bool {
        &&& forall|i: int|
            0 <= i < self.tabs.len() ==> (shown(
                before,
                self.effects,
                (#[trigger] self.tabs[i]).id,
            ) <==> self.active == Some(i as usize))
        &&& forall|i: int|
            0 <= i < self.closed.len() ==> !shown(
                before,
                self.effects,
                (#[trigger] self.closed[i]).tab.id,
            )
    }
}

/// One more effect decides about the tab it names, if it shows or hides.
proof fn lemma_shown_push(before: Set<TabId>, effects: Seq<EffectState>, e: EffectState, id: TabId)
    ensures
        shown(before, effects.push(e), id) == match e {
            EffectState::Call { tab, call: HostCall::WasHidden(hidden) } => if tab == id {
                !hidden
            } else {
                shown(before, effects, id)
            },
            _ => shown(before, effects, id),
        },
{
    assert(effects.push(e).drop_last() == effects);
}

/// Requests that neither show nor hide leave what is shown alone.
pub proof fn lemma_emit_other(s: HostState, before: Set<TabId>, e: EffectState)
    requires
        !(e matches EffectState::Call { tab, call: HostCall::WasHidden(h) }),
        s.only_active_shown(before),
    ensures
        s.emit(e).only_active_shown(before),
{
    assert forall|id: TabId| shown(before, s.effects.push(e), id) == shown(before, s.effects, id) by {
        lemma_shown_push(before, s.effects, e, id);
    }
}

/// What is shown after tab `i` was activated.
proof fn lemma_shown_activated(s: HostState, before: Set<TabId>, i: int, id: TabId)
    requires
        s.wf(),
        0 <= i < s.tabs.len(),
    ensures
        shown(before, s.activated(i).effects, id) == if id == s.tabs[i].id {
            true
        } else if s.active is Some && s.active->0 != i && id == s.tabs[s.active->0 as int].id {
            false
        } else {
            shown(before, s.effects, id)
        },
{
    let hidden = match s.active {
        Some(p) => if p != i {
            let h = call(s.tabs[p as int].id, HostCall::WasHidden(true));
            let f = call(s.tabs[p as int].id, HostCall::SetFocus(false));
            lemma_shown_push(before, s.effects, h, id);
            lemma_shown_push(before, s.effects.push(h), f, id);
            s.emit(h).emit(f)
        } else {
            s
        },
        None => s,
    };
    let t = s.tabs[i].id;
    let a = call(t, HostCall::WasHidden(false));
    let b = call(t, HostCall::WasResized);
    let c = call(t, HostCall::SetFocus(true));
    lemma_shown_push(before, hidden.effects, a, id);
    lemma_shown_push(before, hidden.effects.push(a), b, id);
    lemma_shown_push(before, hidden.effects.push(a).push(b), c, id);
}

/// If no tab but the active one and tab `i` is shown, then after activating
/// tab `i` it alone is.
proof fn lemma_activated_alone(s: HostState, before: Set<TabId>, i: int)
    requires
        s.wf(),
        s.ids_unique(),
        0 <= i < s.tabs.len(),
        forall|k: int|
            0 <= k < s.tabs.len() && k != i && shown(before, s.effects, (#[trigger] s.tabs[k]).id)
                ==> s.active == Some(k as usize),
        forall|k: int|
            0 <= k < s.closed.len() ==> !shown(
                before,
                s.effects,
                (#[trigger] s.closed[k]).tab.id,
            ),
    ensures
        s.activated(i).only_active_shown(before),
        s.activated(i).ids_unique(),
        s.activated(i).wf(),
{
    let r = s.activated(i);
    assert forall|k: int| 0 <= k < r.tabs.len() implies (shown(
        before,
        r.effects,
        (#[trigger] r.tabs[k]).id,
    ) <==> r.active == Some(k as usize)) by {
        lemma_shown_activated(s, before, i, s.tabs[k].id);
        if k != i {
            assert(s.tabs[k].id != s.tabs[i].id);
        }
    }
    assert forall|k: int| 0 <= k < r.closed.len() implies !shown(
        before,
        r.effects,
        (#[trigger] r.closed[k]).tab.id,
    ) by {
        lemma_shown_activated(s, before, i, s.closed[k].tab.id);
        assert(s.tabs[i].id != s.closed[k].tab.id);
    }
}

/// Switching tabs: only the active tab is visible afterwards.
pub proof fn law_activation_shows_only_active(s: HostState, before: Set<TabId>, i: int)
    requires
        s.wf(),
        s.ids_unique(),
        s.only_active_shown(before),
        i >= 0,
    ensures
        s.activated(i).only_active_shown(before),
        s.activated(i).ids_unique(),
{
    if i < s.tabs.len() {
        lemma_activated_alone(s, before, i);
    }
}

/// Opening a tab: ids stay unique and only the active tab is visible
/// afterwards, in front or in the background.
pub proof fn law_opening_shows_only_active(
    s: HostState,
    before: Set<TabId>,
    browser_id: i32,
    url: Seq<char>,
    background: bool,
)
    requires
        s.wf(),
        s.tabs.len() < usize::MAX,
        s.next_id < u64::MAX,
        s.ids_unique(),
        s.only_active_shown(before),
    ensures
        s.added(browser_id, url, background).only_active_shown(before),
        s.added(browser_id, url, background).ids_unique(),
{
    let grown = HostState {
        tabs: s.tabs.push(s.new_tab(browser_id, url)),
        next_id: s.next_id.wrapping_add(1),
        ..s
    };
    let id = TabId(s.next_id);
    assert(grown.ids_unique());
    if background {
        let h = call(id, HostCall::WasHidden(true));
        let r = grown.emit(h);
        assert forall|k: int| 0 <= k < r.tabs.len() implies (shown(
            before,
            r.effects,
            (#[trigger] r.tabs[k]).id,
        ) <==> r.active == Some(k as usize)) by {
            lemma_shown_push(before, s.effects, h, r.tabs[k].id);
            if k < s.tabs.len() {
                assert(r.tabs[k] == s.tabs[k]);
            }
        }
        assert forall|k: int| 0 <= k < r.closed.len() implies !shown(
            before,
            r.effects,
            (#[trigger] r.closed[k]).tab.id,
        ) by {
            lemma_shown_push(before, s.effects, h, s.closed[k].tab.id);
        }
        lemma_emit_other(r, before, EffectState::CountTabOpened);
    } else {
        assert forall|k: int|
            0 <= k < grown.tabs.len() && k != s.tabs.len() && shown(
                before,
                grown.effects,
                (#[trigger] grown.tabs[k]).id,
            ) implies grown.active == Some(k as usize) by {
            assert(grown.tabs[k] == s.tabs[k]);
        }
        lemma_activated_alone(grown, before, s.tabs.len() as int);
        lemma_emit_other(grown.activated(s.tabs.len() as int), before, EffectState::CountTabOpened);
    }
}

/// Opening a tab at a position: ids stay unique and only the active tab is
/// visible afterwards.
pub proof fn law_opening_at_shows_only_active(
    s: HostState,
    before: Set<TabId>,
    browser_id: i32,
    url: Seq<char>,
    at: int,
)
    requires
        s.wf(),
        s.tabs.len() < usize::MAX,
        s.next_id < u64::MAX,
        s.ids_unique(),
        s.only_active_shown(before),
        at >= 0,
    ensures
        s.added_at(browser_id, url, at).only_active_shown(before),
        s.added_at(browser_id, url, at).ids_unique(),
        s.added_at(browser_id, url, at).active == Some(least(at, s.tabs.len() as int) as usize),
        s.added_at(browser_id, url, at).tabs == s.tabs.insert(
            least(at, s.tabs.len() as int),
            s.new_tab(browser_id, url),
        ),
{
    let a = s.added(browser_id, url, true);
    let end = s.tabs.len() as int;
    let pos = least(at, end);
    law_opening_shows_only_active(s, before, browser_id, url, true);
    let placed = a.taken(end).inserted(pos, a.tabs[end]);
    assert(a.taken(end).tabs == s.tabs);
    assert(placed.tabs == s.tabs.insert(pos, s.new_tab(browser_id, url)));
    lemma_insert_ids(a.taken(end), pos, a.tabs[end]);
    assert forall|k: int|
        0 <= k < placed.tabs.len() && k != pos && shown(
            before,
            placed.effects,
            (#[trigger] placed.tabs[k]).id,
        ) implies placed.active == Some(k as usize) by {
        let j = if k < pos {
            k
        } else {
            k - 1
        };
        assert(placed.tabs[k] == a.tabs[j]);
    }
    lemma_activated_alone(placed, before, pos);
}

/// Inserting a tab with a fresh id keeps ids unique.
proof fn lemma_insert_ids(s: HostState, pos: int, tab: TabState)
    requires
        s.wf(),
        s.ids_unique(),
        0 <= pos <= s.tabs.len(),
        s.tabs.len() < usize::MAX,
        tab.id.0 < s.next_id,
        forall|k: int| 0 <= k < s.tabs.len() ==> (#[trigger] s.tabs[k]).id != tab.id,
        forall|k: int| 0 <= k < s.closed.len() ==> (#[trigger] s.closed[k]).tab.id != tab.id,
    ensures
        s.inserted(pos, tab).ids_unique(),
        s.inserted(pos, tab).wf(),
{
    let r = s.inserted(pos, tab);
    assert forall|k: int| 0 <= k < r.tabs.len() implies #[trigger] r.tabs[k] == if k < pos {
        s.tabs[k]
    } else if k == pos {
        tab
    } else {
        s.tabs[k - 1]
    } by {}
}

/// Closing a tab: ids stay unique, only the active tab is visible afterwards,
/// and at most eight closed tabs are kept.
pub proof fn law_closing_shows_only_active(s: HostState, before: Set<TabId>, i: int)
    requires
        s.wf(),
        s.ids_unique(),
        s.only_active_shown(before),
        i >= 0,
    ensures
        s.closed_at(i).only_active_shown(before),
        s.closed_at(i).ids_unique(),
        s.closed_at(i).wf(),
{
    if i < s.tabs.len() {
        let tab = s.tabs[i];
        let t = s.taken(i);
        assert forall|k: int| 0 <= k < t.tabs.len() implies #[trigger] t.tabs[k] == if k < i {
            s.tabs[k]
        } else {
            s.tabs[k + 1]
        } by {}
        assert(t.ids_unique());
        assert forall|k: int| 0 <= k < t.tabs.len() implies (#[trigger] t.tabs[k]).id != tab.id by {}
        if stashable(tab.url) {
            let h = call(tab.id, HostCall::WasHidden(true));
            let f = call(tab.id, HostCall::SetFocus(false));
            let hidden = t.emit(h).emit(f);
            let pushed = s.closed.push(ClosedState { tab, index: i as usize });
            let r = t.stashed(tab, i);
            let c = call(pushed[0].tab.id, HostCall::CloseBrowser);
            assert forall|id: TabId| shown(before, r.effects, id) == (id != tab.id && shown(
                before,
                s.effects,
                id,
            )) by {
                lemma_shown_push(before, s.effects, h, id);
                lemma_shown_push(before, s.effects.push(h), f, id);
                lemma_shown_push(before, s.effects.push(h).push(f), c, id);
            }
            assert forall|k: int| 0 <= k < r.closed.len() implies {
                let j = if pushed.len() > CLOSED_STACK_CAP {
                    k + 1
                } else {
                    k
                };
                #[trigger] r.closed[k] == pushed[j]
            } by {}
            assert(r.only_active_shown(before));
            assert(r.ids_unique());
            if r.tabs.len() > 0 {
                lemma_activated_alone(r, before, least(i, r.tabs.len() - 1));
            }
        } else {
            let c = call(tab.id, HostCall::CloseBrowser);
            let r = t.emit(c);
            assert(t.only_active_shown(before));
            lemma_emit_other(t, before, c);
            if r.tabs.len() > 0 {
                lemma_activated_alone(r, before, least(i, r.tabs.len() - 1));
            }
        }
    }
}

/// Reopening a tab: ids stay unique and only the active tab is visible
/// afterwards.
pub proof fn law_reopening_shows_only_active(s: HostState, before: Set<TabId>)
    requires
        s.wf(),
        s.tabs.len() < usize::MAX,
        s.ids_unique(),
        s.only_active_shown(before),
    ensures
        s.reopened().only_active_shown(before),
        s.reopened().ids_unique(),
{
    if s.closed.len() > 0 {
        let entry = s.closed.last();
        let pos = least(entry.index as int, s.tabs.len() as int);
        let popped = HostState { closed: s.closed.drop_last(), ..s };
        assert(popped.ids_unique());
        lemma_insert_ids(popped, pos, entry.tab);
        let placed = popped.inserted(pos, entry.tab);
        let h = call(entry.tab.id, HostCall::WasHidden(false));
        let f = call(entry.tab.id, HostCall::WasResized);
        let r = placed.emit(h).emit(f);
        assert forall|id: TabId| id != entry.tab.id implies shown(before, r.effects, id) == shown(
            before,
            s.effects,
            id,
        ) by {
            lemma_shown_push(before, s.effects, h, id);
            lemma_shown_push(before, s.effects.push(h), f, id);
        }
        assert(r.ids_unique());
        assert forall|k: int|
            0 <= k < r.tabs.len() && k != pos && shown(
                before,
                r.effects,
                (#[trigger] r.tabs[k]).id,
            ) implies r.active == Some(k as usize) by {
            let j = if k < pos {
                k
            } else {
                k - 1
            };
            assert(r.tabs[k] == s.tabs[j]);
        }
        lemma_activated_alone(r, before, pos);
    }
}

/// Moving a tab rearranges the strip: the active tab stays the same, every
/// tab is still there, and only the active tab is visible.
pub proof fn law_moving_keeps_active_tab(s: HostState, before: Set<TabId>, from: int, to: int)
    requires
        s.wf(),
        from >= 0,
        to >= 0,
    ensures
        s.moved(from, to).active_state() == s.active_state(),
        s.moved(from, to).tabs.to_multiset() == s.tabs.to_multiset(),
        s.moved(from, to).closed == s.closed,
        s.moved(from, to).effects == s.effects,
        s.ids_unique() ==> s.moved(from, to).ids_unique(),
        s.only_active_shown(before) ==> s.moved(from, to).only_active_shown(before),
{
    let last = s.tabs.len() - 1;
    let f = least(from, last);
    let t = least(to, last);
    if s.tabs.len() > 0 && f != t {
        let r = s.moved(from, to);
        let rest = s.tabs.remove(f);
        broadcast use vstd::seq_lib::group_to_multiset_ensures;

        assert(s.tabs.to_multiset() == rest.insert(f, s.tabs[f]).to_multiset()) by {
            assert(rest.insert(f, s.tabs[f]) == s.tabs);
        }
        assert forall|k: int| 0 <= k < r.tabs.len() implies #[trigger] r.tabs[k] == s.tabs[origin(
            f,
            t,
            k,
        )] by {}
        assert forall|k: int| 0 <= k < r.tabs.len() implies (r.active == Some(k as usize)
            <==> s.active == Some(#[trigger] origin(f, t, k) as usize)) by {}
        if s.ids_unique() {
            assert forall|i: int, j: int| 0 <= i < j < r.tabs.len() implies (
            #[trigger] r.tabs[i]).id != (#[trigger] r.tabs[j]).id by {
                assert(origin(f, t, i) != origin(f, t, j));
            }
        }
    }
}

/// Where tab `k` of the strip stood before the tab at `f` moved to `t`.
pub open spec fn origin(f: int, t: int, k: int) -> int {
    if k == t {
        f
    } else if f < t && f <= k < t {
        k + 1
    } else if t < f && t < k <= f {
        k - 1
    } else {
        k
    }
}

/// Moving a tab and moving it back restores the strip.
pub proof fn law_moving_back_restores(s: HostState, from: int, to: int)
    requires
        s.wf(),
        0 <= from < s.tabs.len(),
        0 <= to < s.tabs.len(),
    ensures
        s.moved(from, to).moved(to, from) == s,
{
    assert(s.moved(from, to).moved(to, from) =~= s);
}

/// Closing a tab that is worth keeping and reopening it restores the strip,
/// with that tab active.
pub proof fn law_reopening_restores_closed(s: HostState, i: int)
    requires
        s.wf(),
        0 <= i < s.tabs.len(),
        stashable(s.tabs[i].url),
    ensures
        s.closed_at(i).reopened().tabs == s.tabs,
        s.closed_at(i).reopened().active == Some(i as usize),
        s.closed_at(i).reopened().closed == if s.closed.len() < CLOSED_STACK_CAP {
            s.closed
        } else {
            s.closed.drop_first()
        },
{
    let c = s.closed_at(i);
    let pushed = s.closed.push(ClosedState { tab: s.tabs[i], index: i as usize });
    assert(c.tabs == s.tabs.remove(i));
    assert(c.closed.last() == pushed.last());
    assert(s.tabs.remove(i).insert(i, s.tabs[i]) == s.tabs);
    assert(c.reopened().tabs == s.tabs);
    if s.closed.len() < CLOSED_STACK_CAP {
        assert(c.closed.drop_last() == s.closed);
    } else {
        assert(c.closed.drop_last() == s.closed.drop_first());
    }
}

/// A blank tab is not kept when it is closed.
pub proof fn law_blank_tabs_are_not_kept(s: HostState, i: int)
    requires
        s.wf(),
        0 <= i < s.tabs.len(),
        !stashable(s.tabs[i].url),
    ensures
        s.closed_at(i).closed == s.closed,
        s.closed_at(i).tabs == s.tabs.remove(i),
{
}

/// Whether the requests that `after` has beyond `before` shut the browser of
/// tab `id`.
pub open spec fn shut_since(before: Seq<EffectState>, after: Seq<EffectState>, id: TabId) -> bool {
    exists|k: int|
        before.len() <= k < after.len() && #[trigger] after[k] == call(id, HostCall::CloseBrowser)
}

/// One more request shuts the browser that it asks to close, if it does.
proof fn lemma_shut_push(
    before: Seq<EffectState>,
    after: Seq<EffectState>,
    e: EffectState,
    id: TabId,
)
    requires
        before.len() <= after.len(),
    ensures
        shut_since(before, after.push(e), id) <==> shut_since(before, after, id) || e == call(
            id,
            HostCall::CloseBrowser,
        ),
{
    let more = after.push(e);
    if shut_since(before, after, id) {
        let k = choose|k: int|
            before.len() <= k < after.len() && #[trigger] after[k] == call(
                id,
                HostCall::CloseBrowser,
            );
        assert(more[k] == after[k]);
    }
    if e == call(id, HostCall::CloseBrowser) {
        assert(more[after.len() as int] == e);
    }
    if shut_since(before, more, id) {
        let k = choose|k: int|
            before.len() <= k < more.len() && #[trigger] more[k] == call(
                id,
                HostCall::CloseBrowser,
            );
        if k < after.len() {
            assert(after[k] == more[k]);
        }
    }
}

/// Activating a tab shuts no browser.
proof fn lemma_activation_shuts_nothing(s: HostState, before: Seq<EffectState>, i: int, id: TabId)
    requires
        s.wf(),
        0 <= i,
        before.len() <= s.effects.len(),
    ensures
        shut_since(before, s.activated(i).effects, id) <==> shut_since(before, s.effects, id),
{
    if i < s.tabs.len() {
        let hidden = match s.active {
            Some(p) => if p != i {
                let h = call(s.tabs[p as int].id, HostCall::WasHidden(true));
                let f = call(s.tabs[p as int].id, HostCall::SetFocus(false));
                lemma_shut_push(before, s.effects, h, id);
                lemma_shut_push(before, s.effects.push(h), f, id);
                s.emit(h).emit(f)
            } else {
                s
            },
            None => s,
        };
        let t = s.tabs[i].id;
        let a = call(t, HostCall::WasHidden(false));
        let b = call(t, HostCall::WasResized);
        let c = call(t, HostCall::SetFocus(true));
        lemma_shut_push(before, hidden.effects, a, id);
        lemma_shut_push(before, hidden.effects.push(a), b, id);
        lemma_shut_push(before, hidden.effects.push(a).push(b), c, id);
    }
}

/// Which browsers a close shuts. A blank tab's own is shut and nothing is kept
/// of it. Any other tab is kept with its position and its browser stays alive;
/// only if the stack was full, the oldest kept tab leaves it and that tab's
/// browser is shut. The stack never grows past its cap.
pub proof fn law_closing_shuts_blank_and_evicted(s: HostState, i: int)
    requires
        s.wf(),
        0 <= i < s.tabs.len(),
    ensures
        s.effects.is_prefix_of(s.closed_at(i).effects),
        forall|id: TabId| #[trigger]
            shut_since(s.effects, s.closed_at(i).effects, id) <==> if stashable(s.tabs[i].url) {
                s.closed.len() == CLOSED_STACK_CAP && id == s.closed[0].tab.id
            } else {
                id == s.tabs[i].id
            },
        s.closed_at(i).closed == if !stashable(s.tabs[i].url) {
            s.closed
        } else {
            let pushed = s.closed.push(ClosedState { tab: s.tabs[i], index: i as usize });
            if s.closed.len() == CLOSED_STACK_CAP {
                pushed.drop_first()
            } else {
                pushed
            }
        },
        s.closed_at(i).closed.len() <= CLOSED_STACK_CAP,
        s.ids_unique() && stashable(s.tabs[i].url) ==> !shut_since(
            s.effects,
            s.closed_at(i).effects,
            s.tabs[i].id,
        ),
{
    let tab = s.tabs[i];
    let before = s.effects;
    let c = s.closed_at(i);
    let t = s.taken(i);
    let placed = if stashable(tab.url) {
        t.stashed(tab, i)
    } else {
        t.emit(call(tab.id, HostCall::CloseBrowser))
    };
    assert(placed.wf());
    assert forall|id: TabId| #[trigger] shut_since(before, c.effects, id) <==> if stashable(tab.url) {
        s.closed.len() == CLOSED_STACK_CAP && id == s.closed[0].tab.id
    } else {
        id == tab.id
    } by {
        if stashable(tab.url) {
            let h = call(tab.id, HostCall::WasHidden(true));
            let f = call(tab.id, HostCall::SetFocus(false));
            let pushed = s.closed.push(ClosedState { tab, index: i as usize });
            lemma_shut_push(before, before, h, id);
            lemma_shut_push(before, before.push(h), f, id);
            lemma_shut_push(
                before,
                before.push(h).push(f),
                call(pushed[0].tab.id, HostCall::CloseBrowser),
                id,
            );
        } else {
            lemma_shut_push(before, before, call(tab.id, HostCall::CloseBrowser), id);
        }
        if placed.tabs.len() > 0 {
            lemma_activation_shuts_nothing(placed, before, least(i, placed.tabs.len() - 1), id);
        }
    }
}

/// Ids are handed out in order: a new tab has the next one, above those of all
/// tabs so far, open or closed.
pub proof fn law_ids_grow(s: HostState, browser_id: i32, url: Seq<char>, background: bool)
    requires
        s.wf(),
        s.ids_unique(),
        s.next_id < u64::MAX,
    ensures
        s.added(browser_id, url, background).next_id == s.next_id + 1,
        s.added(browser_id, url, background).tabs == s.tabs.push(s.new_tab(browser_id, url)),
        forall|i: int|
            0 <= i < s.tabs.len() ==> (#[trigger] s.tabs[i]).id.0 < s.new_tab(browser_id, url).id.0,
        forall|i: int|
            0 <= i < s.closed.len() ==> (#[trigger] s.closed[i]).tab.id.0 < s.new_tab(
                browser_id,
                url,
            ).id.0,
{
}

/// Switching tabs keeps what each tab holds, its find query and hint session
/// included, and what can be reopened.
pub proof fn law_switching_keeps_tabs(s: HostState, i: int)
    ensures
        s.activated(i).tabs == s.tabs,
        s.activated(i).closed == s.closed,
        s.next().tabs == s.tabs,
        s.next().closed == s.closed,
        s.prev().tabs == s.tabs,
        s.prev().closed == s.closed,
{
}

/// Closing a tab, pinned or not, takes out that tab alone. The tab after it
/// becomes active, else the last one, else none.
pub proof fn law_closing_takes_one_tab(s: HostState, i: int)
    requires
        s.wf(),
        0 <= i < s.tabs.len(),
    ensures
        s.closed_at(i).tabs == s.tabs.remove(i),
        s.closed_at(i).active_state() == if i + 1 < s.tabs.len() {
            Some(s.tabs[i + 1])
        } else if s.tabs.len() > 1 {
            Some(s.tabs[i - 1])
        } else {
            None
        },
{
    assert(s.tabs.remove(i).len() == s.tabs.len() - 1);
}

/// Going to the next tab and back, or the other way round, ends on the tab
/// where it started.
pub proof fn law_next_and_prev_cancel(s: HostState)
    requires
        s.wf(),
        s.active is Some,
    ensures
        s.next().prev().active == s.active,
        s.prev().next().active == s.active,
        s.next().tabs == s.tabs,
        s.prev().tabs == s.tabs,
{
    let n = s.tabs.len() as int;
    if n > 1 {
        let a = s.current();
        lemma_next_index(a, n);
        lemma_next_index(s.prev().current(), n);
    }
}

proof fn lemma_next_index(a: int, n: int)
    requires
        0 <= a < n,
    ensures
        (a + 1) % n == if a + 1 == n {
            0
        } else {
            a + 1
        },
{
    if a + 1 == n {
        vstd::arithmetic::div_mod::lemma_mod_self_0(n);
    } else {
        vstd::arithmetic::div_mod::lemma_small_mod((a + 1) as nat, n as nat);
    }
}

} // verus!
