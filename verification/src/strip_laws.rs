//! What each operation on the tab strip does to the tabs, the active index,
//! the stack of closed tabs and the pending requests.
use crate::host::{HostCall, HostMode, TabId, CLOSED_STACK_CAP};
use crate::strip::{
    browser_position, position, stashable, ClosedState, EffectState, HostState, TabState,
};
use vstd::prelude::*;

verus! {

/// Activating a tab hides the tab that was active and takes its focus away,
/// unless it is the same one, then shows, resizes and focuses the new one, in
/// this order. The strip itself does not change.
pub proof fn law_activation_hides_and_shows(s: HostState, i: int, p: int)
    requires
        0 <= i < s.tabs.len() <= usize::MAX,
        s.active == Some(p as usize),
        0 <= p < s.tabs.len(),
    ensures
        s.activated(i) == (HostState {
            active: Some(i as usize),
            effects: if p == i {
                s.effects + seq![
                    EffectState::Call { tab: s.tabs[i].id, call: HostCall::WasHidden(false) },
                    EffectState::Call { tab: s.tabs[i].id, call: HostCall::WasResized },
                    EffectState::Call { tab: s.tabs[i].id, call: HostCall::SetFocus(true) },
                ]
            } else {
                s.effects + seq![
                    EffectState::Call { tab: s.tabs[p].id, call: HostCall::WasHidden(true) },
                    EffectState::Call { tab: s.tabs[p].id, call: HostCall::SetFocus(false) },
                    EffectState::Call { tab: s.tabs[i].id, call: HostCall::WasHidden(false) },
                    EffectState::Call { tab: s.tabs[i].id, call: HostCall::WasResized },
                    EffectState::Call { tab: s.tabs[i].id, call: HostCall::SetFocus(true) },
                ]
            },
            ..s
        }),
{
    assert(s.activated(i) =~= HostState {
        active: Some(i as usize),
        effects: s.activated(i).effects,
        ..s
    });
}

/// Without an active tab there is nothing to hide.
pub proof fn law_first_activation_shows(s: HostState, i: int)
    requires
        0 <= i < s.tabs.len() <= usize::MAX,
        s.active is None,
    ensures
        s.activated(i) == (HostState {
            active: Some(i as usize),
            effects: s.effects + seq![
                EffectState::Call { tab: s.tabs[i].id, call: HostCall::WasHidden(false) },
                EffectState::Call { tab: s.tabs[i].id, call: HostCall::WasResized },
                EffectState::Call { tab: s.tabs[i].id, call: HostCall::SetFocus(true) },
            ],
            ..s
        }),
{
    assert(s.activated(i) =~= HostState {
        active: Some(i as usize),
        effects: s.activated(i).effects,
        ..s
    });
}

/// A tab that is not there cannot be activated.
pub proof fn law_missing_tab_is_not_activated(s: HostState, i: int)
    requires
        i >= s.tabs.len(),
    ensures
        s.activated(i) == s,
{
}

/// A new tab stands at the end of the strip: idle, unpinned, without title,
/// search or hints, under an id of its own. Opened in the background it is
/// hidden and the active tab stays; otherwise it becomes active.
pub proof fn law_opening_appends(s: HostState, browser_id: i32, url: Seq<char>, background: bool)
    requires
        s.tabs.len() < usize::MAX,
        s.active matches Some(a) ==> a < s.tabs.len(),
    ensures
        ({
            let r = s.added(browser_id, url, background);
            let id = TabId(s.next_id);
            &&& r.tabs == s.tabs + seq![
                TabState {
                    id,
                    browser_id,
                    url,
                    title: None,
                    progress: 1000,
                    is_loading: false,
                    pinned: false,
                    find_query: None,
                    hint: None,
                },
            ]
            &&& r.active == if background {
                s.active
            } else {
                Some(s.tabs.len() as usize)
            }
            &&& r.next_id == if s.next_id < u64::MAX {
                s.next_id + 1
            } else {
                0
            }
            &&& r.closed == s.closed
            &&& r.last_size == s.last_size && r.private == s.private && r.mode == s.mode
                && r.alphabet == s.alphabet
            &&& background ==> r.effects == s.effects + seq![
                EffectState::Call { tab: id, call: HostCall::WasHidden(true) },
                EffectState::CountTabOpened,
            ]
            &&& !background && s.active is None ==> r.effects == s.effects + seq![
                EffectState::Call { tab: id, call: HostCall::WasHidden(false) },
                EffectState::Call { tab: id, call: HostCall::WasResized },
                EffectState::Call { tab: id, call: HostCall::SetFocus(true) },
                EffectState::CountTabOpened,
            ]
            &&& !background && s.active is Some ==> r.effects == s.effects + seq![
                EffectState::Call {
                    tab: s.tabs[s.active->0 as int].id,
                    call: HostCall::WasHidden(true),
                },
                EffectState::Call {
                    tab: s.tabs[s.active->0 as int].id,
                    call: HostCall::SetFocus(false),
                },
                EffectState::Call { tab: id, call: HostCall::WasHidden(false) },
                EffectState::Call { tab: id, call: HostCall::WasResized },
                EffectState::Call { tab: id, call: HostCall::SetFocus(true) },
                EffectState::CountTabOpened,
            ]
        }),
{
}

/// A new tab asked for at a position stands there, or at the end if the strip
/// is shorter, and becomes active; the tabs before and after it keep their
/// order.
pub proof fn law_opening_at_a_position(s: HostState, browser_id: i32, url: Seq<char>, at: int)
    requires
        s.tabs.len() < usize::MAX,
        s.active matches Some(a) ==> a < s.tabs.len(),
        at >= 0,
    ensures
        ({
            let r = s.added_at(browser_id, url, at);
            let id = TabId(s.next_id);
            let p = if at < s.tabs.len() {
                at
            } else {
                s.tabs.len() as int
            };
            &&& r.tabs == s.tabs.take(p) + seq![
                TabState {
                    id,
                    browser_id,
                    url,
                    title: None,
                    progress: 1000,
                    is_loading: false,
                    pinned: false,
                    find_query: None,
                    hint: None,
                },
            ] + s.tabs.skip(p)
            &&& r.active == Some(p as usize)
            &&& r.next_id == if s.next_id < u64::MAX {
                s.next_id + 1
            } else {
                0
            }
            &&& r.closed == s.closed
            &&& r.last_size == s.last_size && r.private == s.private && r.mode == s.mode
                && r.alphabet == s.alphabet
            &&& s.active is None ==> r.effects == s.effects + seq![
                EffectState::Call { tab: id, call: HostCall::WasHidden(true) },
                EffectState::CountTabOpened,
                EffectState::Call { tab: id, call: HostCall::WasHidden(false) },
                EffectState::Call { tab: id, call: HostCall::WasResized },
                EffectState::Call { tab: id, call: HostCall::SetFocus(true) },
            ]
            &&& s.active is Some ==> r.effects == s.effects + seq![
                EffectState::Call { tab: id, call: HostCall::WasHidden(true) },
                EffectState::CountTabOpened,
                EffectState::Call {
                    tab: s.tabs[s.active->0 as int].id,
                    call: HostCall::WasHidden(true),
                },
                EffectState::Call {
                    tab: s.tabs[s.active->0 as int].id,
                    call: HostCall::SetFocus(false),
                },
                EffectState::Call { tab: id, call: HostCall::WasHidden(false) },
                EffectState::Call { tab: id, call: HostCall::WasResized },
                EffectState::Call { tab: id, call: HostCall::SetFocus(true) },
            ]
        }),
{
    let end = s.tabs.len() as int;
    let a = s.added(browser_id, url, true);
    assert(a.tabs.remove(end) == s.tabs);
}

/// The most recently closed tab comes back at the position that it had, or at
/// the end if the strip has become shorter, and is active, whichever tab was
/// active before. It leaves the stack of closed tabs; the other tabs keep
/// their order.
pub proof fn law_reopening_puts_the_tab_back(s: HostState)
    requires
        s.tabs.len() < usize::MAX,
        s.active matches Some(a) ==> a < s.tabs.len(),
        s.closed.len() > 0,
    ensures
        ({
            let r = s.reopened();
            let e = s.closed[s.closed.len() - 1];
            let p = if e.index < s.tabs.len() {
                e.index as int
            } else {
                s.tabs.len() as int
            };
            &&& r.tabs == s.tabs.insert(p, e.tab)
            &&& r.tabs == s.tabs.take(p) + seq![e.tab] + s.tabs.skip(p)
            &&& r.active == Some(p as usize)
            &&& r.closed == s.closed.take(s.closed.len() - 1)
            &&& r.next_id == s.next_id && r.last_size == s.last_size && r.private == s.private
                && r.mode == s.mode && r.alphabet == s.alphabet
            &&& s.active is None ==> r.effects == s.effects + seq![
                EffectState::Call { tab: e.tab.id, call: HostCall::WasHidden(false) },
                EffectState::Call { tab: e.tab.id, call: HostCall::WasResized },
                EffectState::Call { tab: e.tab.id, call: HostCall::WasHidden(false) },
                EffectState::Call { tab: e.tab.id, call: HostCall::WasResized },
                EffectState::Call { tab: e.tab.id, call: HostCall::SetFocus(true) },
            ]
            &&& s.active is Some ==> r.effects == s.effects + seq![
                EffectState::Call { tab: e.tab.id, call: HostCall::WasHidden(false) },
                EffectState::Call { tab: e.tab.id, call: HostCall::WasResized },
                EffectState::Call {
                    tab: s.tabs[s.active->0 as int].id,
                    call: HostCall::WasHidden(true),
                },
                EffectState::Call {
                    tab: s.tabs[s.active->0 as int].id,
                    call: HostCall::SetFocus(false),
                },
                EffectState::Call { tab: e.tab.id, call: HostCall::WasHidden(false) },
                EffectState::Call { tab: e.tab.id, call: HostCall::WasResized },
                EffectState::Call { tab: e.tab.id, call: HostCall::SetFocus(true) },
            ]
        }),
{
    assert(s.closed.drop_last() == s.closed.take(s.closed.len() - 1));
}

/// Without a closed tab there is nothing to reopen.
pub proof fn law_nothing_to_reopen(s: HostState)
    requires
        s.closed.len() == 0,
    ensures
        s.reopened() == s,
{
}

/// Closing takes out exactly the tab that is named. The tab that moves into
/// its place becomes active, or the last one; an empty strip has no active
/// tab.
pub proof fn law_closing_activates_the_neighbour(s: HostState, i: int)
    requires
        0 <= i < s.tabs.len() <= usize::MAX,
        s.active matches Some(a) ==> a < s.tabs.len(),
    ensures
        s.closed_at(i).tabs == s.tabs.take(i) + s.tabs.skip(i + 1),
        s.closed_at(i).active == if s.tabs.len() == 1 {
            None
        } else if i + 1 < s.tabs.len() {
            Some(i as usize)
        } else {
            Some((s.tabs.len() - 2) as usize)
        },
        s.closed_at(i).next_id == s.next_id,
        s.closed_at(i).last_size == s.last_size,
        s.closed_at(i).private == s.private,
        s.closed_at(i).mode == s.mode,
        s.closed_at(i).alphabet == s.alphabet,
{
    assert(s.tabs.remove(i) == s.tabs.take(i) + s.tabs.skip(i + 1));
}

/// A closed tab is kept for reopening, with its position, on top of those kept
/// before, unless it shows a blank page. Eight are kept: the oldest gives way.
pub proof fn law_closing_keeps_the_tab(s: HostState, i: int)
    requires
        0 <= i < s.tabs.len() <= usize::MAX,
        s.closed.len() <= 8,
    ensures
        s.tabs[i].url.len() == 0 || s.tabs[i].url == "about:blank"@ ==> s.closed_at(i).closed
            == s.closed,
        s.tabs[i].url.len() > 0 && s.tabs[i].url != "about:blank"@ && s.closed.len() < 8
            ==> s.closed_at(i).closed == s.closed + seq![
            ClosedState { tab: s.tabs[i], index: i as usize },
        ],
        s.tabs[i].url.len() > 0 && s.tabs[i].url != "about:blank"@ && s.closed.len() == 8
            ==> s.closed_at(i).closed == s.closed.skip(1) + seq![
            ClosedState { tab: s.tabs[i], index: i as usize },
        ],
{
    let e = ClosedState { tab: s.tabs[i], index: i as usize };
    if s.closed.len() == 8 {
        assert(s.closed.push(e).drop_first() == s.closed.skip(1) + seq![e]);
    }
}

/// The requests of closing a tab: the browser of a kept tab is hidden and
/// loses the focus, that of a tab that is not kept or that gives way is shut;
/// then the tab that was active is hidden, if it is neither the closed tab nor
/// the one that becomes active, and the latter is shown, resized and focused.
pub proof fn law_closing_requests(s: HostState, i: int)
    requires
        0 <= i < s.tabs.len() <= usize::MAX,
        s.active matches Some(a) ==> a < s.tabs.len(),
        s.closed.len() <= 8,
    ensures
        ({
            let id = s.tabs[i].id;
            let gone = if s.tabs[i].url.len() == 0 || s.tabs[i].url == "about:blank"@ {
                seq![EffectState::Call { tab: id, call: HostCall::CloseBrowser }]
            } else if s.closed.len() < 8 {
                seq![
                    EffectState::Call { tab: id, call: HostCall::WasHidden(true) },
                    EffectState::Call { tab: id, call: HostCall::SetFocus(false) },
                ]
            } else {
                seq![
                    EffectState::Call { tab: id, call: HostCall::WasHidden(true) },
                    EffectState::Call { tab: id, call: HostCall::SetFocus(false) },
                    EffectState::Call { tab: s.closed[0].tab.id, call: HostCall::CloseBrowser },
                ]
            };
            let n = if i + 1 < s.tabs.len() {
                i + 1
            } else {
                i - 1
            };
            let left = if s.active is Some && s.active->0 != i && s.active->0 != n {
                seq![
                    EffectState::Call {
                        tab: s.tabs[s.active->0 as int].id,
                        call: HostCall::WasHidden(true),
                    },
                    EffectState::Call {
                        tab: s.tabs[s.active->0 as int].id,
                        call: HostCall::SetFocus(false),
                    },
                ]
            } else {
                Seq::empty()
            };
            s.closed_at(i).effects == if s.tabs.len() == 1 {
                s.effects + gone
            } else {
                s.effects + gone + left + seq![
                    EffectState::Call { tab: s.tabs[n].id, call: HostCall::WasHidden(false) },
                    EffectState::Call { tab: s.tabs[n].id, call: HostCall::WasResized },
                    EffectState::Call { tab: s.tabs[n].id, call: HostCall::SetFocus(true) },
                ]
            }
        }),
{
    let e = ClosedState { tab: s.tabs[i], index: i as usize };
    assert(s.closed.push(e)[0] == if s.closed.len() == 0 {
        e
    } else {
        s.closed[0]
    });
}

/// A tab that is not there cannot be closed.
pub proof fn law_missing_tab_is_not_closed(s: HostState, i: int)
    requires
        i >= s.tabs.len(),
    ensures
        s.closed_at(i) == s,
{
}

/// Moving a tab takes it out and puts it in at the place asked for, or last
/// where the strip is too short; the other tabs keep their order, the same tab
/// stays active, and nothing else changes.
pub proof fn law_moving_reorders(s: HostState, from: int, to: int, a: int)
    requires
        0 < s.tabs.len() <= usize::MAX,
        from >= 0,
        to >= 0,
        0 <= a < s.tabs.len(),
    ensures
        ({
            let last = s.tabs.len() - 1;
            let f = if from < last {
                from
            } else {
                last
            };
            let t = if to < last {
                to
            } else {
                last
            };
            let r = s.moved(from, to);
            &&& r.tabs.len() == s.tabs.len()
            &&& r.tabs[t] == s.tabs[f]
            &&& r.tabs.remove(t) == s.tabs.remove(f)
            &&& s.active is None ==> r.active is None
            &&& s.active == Some(a as usize) ==> r.active == Some(
                (if a == f {
                    t
                } else if f < a <= t {
                    a - 1
                } else if t <= a < f {
                    a + 1
                } else {
                    a
                }) as usize,
            )
            &&& s.active == Some(a as usize) ==> r.active is Some && r.active->0 < r.tabs.len()
                && r.tabs[r.active->0 as int] == s.tabs[a]
            &&& r.effects == s.effects && r.closed == s.closed && r.next_id == s.next_id
                && r.last_size == s.last_size && r.private == s.private && r.mode == s.mode
                && r.alphabet == s.alphabet
        }),
{
    let last = s.tabs.len() - 1;
    let f = if from < last {
        from
    } else {
        last
    };
    let t = if to < last {
        to
    } else {
        last
    };
    if f != t {
        assert(s.tabs.remove(f).insert(t, s.tabs[f]).remove(t) == s.tabs.remove(f));
    }
}

/// In a strip of two or more, the next tab is the one after the active tab and
/// the first one after the last; the previous tab is the one before it and the
/// last one before the first. Without an active tab the first one counts. The
/// tabs themselves stay as they are.
pub proof fn law_switching_wraps_around(s: HostState)
    requires
        2 <= s.tabs.len() <= usize::MAX,
        s.active matches Some(a) ==> a < s.tabs.len(),
    ensures
        s.active matches Some(a) ==> s.next().active == Some(
            (if a == s.tabs.len() - 1 {
                0
            } else {
                a + 1
            }) as usize,
        ),
        s.active matches Some(a) ==> s.prev().active == Some(
            (if a == 0 {
                s.tabs.len() - 1
            } else {
                a - 1
            }) as usize,
        ),
        s.active is None ==> s.next().active == Some(1usize),
        s.active is None ==> s.prev().active == Some((s.tabs.len() - 1) as usize),
        s.next() == (HostState { active: s.next().active, effects: s.next().effects, ..s }),
        s.prev() == (HostState { active: s.prev().active, effects: s.prev().effects, ..s }),
{
    if let Some(a) = s.active {
        let n = s.tabs.len() as int;
        if a == n - 1 {
            assert((a + 1) % n == 0) by (nonlinear_arith)
                requires
                    a + 1 == n,
                    n >= 2,
            ;
        } else {
            vstd::arithmetic::div_mod::lemma_small_mod((a + 1) as nat, n as nat);
        }
    } else {
        vstd::arithmetic::div_mod::lemma_small_mod(1, s.tabs.len());
    }
}

/// Switching to the next or the previous tab makes the requests of switching
/// between two tabs: the one is hidden and loses the focus, the other is
/// shown, resized and focused.
pub proof fn law_switching_requests(s: HostState, a: int, forward: bool)
    requires
        2 <= s.tabs.len() <= usize::MAX,
        0 <= a < s.tabs.len(),
        s.active == Some(a as usize),
    ensures
        ({
            let n = s.tabs.len() - 1;
            let to = if forward {
                if a == n {
                    0
                } else {
                    a + 1
                }
            } else {
                if a == 0 {
                    n
                } else {
                    a - 1
                }
            };
            (if forward {
                s.next()
            } else {
                s.prev()
            }).effects == s.effects + seq![
                EffectState::Call { tab: s.tabs[a].id, call: HostCall::WasHidden(true) },
                EffectState::Call { tab: s.tabs[a].id, call: HostCall::SetFocus(false) },
                EffectState::Call { tab: s.tabs[to].id, call: HostCall::WasHidden(false) },
                EffectState::Call { tab: s.tabs[to].id, call: HostCall::WasResized },
                EffectState::Call { tab: s.tabs[to].id, call: HostCall::SetFocus(true) },
            ]
        }),
{
    let n = s.tabs.len() as int;
    if a == n - 1 {
        assert((a + 1) % n == 0) by (nonlinear_arith)
            requires
                a + 1 == n,
                n >= 2,
        ;
    } else {
        vstd::arithmetic::div_mod::lemma_small_mod((a + 1) as nat, n as nat);
    }
}

/// Without an active tab the tab that is switched to is shown, resized and
/// focused, and there is nothing to hide.
pub proof fn law_first_switch_requests(s: HostState, forward: bool)
    requires
        2 <= s.tabs.len() <= usize::MAX,
        s.active is None,
    ensures
        ({
            let to = if forward {
                1
            } else {
                s.tabs.len() - 1
            };
            (if forward {
                s.next()
            } else {
                s.prev()
            }).effects == s.effects + seq![
                EffectState::Call { tab: s.tabs[to].id, call: HostCall::WasHidden(false) },
                EffectState::Call { tab: s.tabs[to].id, call: HostCall::WasResized },
                EffectState::Call { tab: s.tabs[to].id, call: HostCall::SetFocus(true) },
            ]
        }),
{
    vstd::arithmetic::div_mod::lemma_small_mod(1, s.tabs.len());
}

/// With fewer than two tabs there is nothing to switch to.
pub proof fn law_single_tab_is_not_switched(s: HostState)
    requires
        s.tabs.len() <= 1,
    ensures
        s.next() == s,
        s.prev() == s,
{
}

/// A new host has no tabs, no closed tabs and nothing pending, and keeps what
/// it was made with.
pub proof fn law_new_host_is_empty(
    mode: HostMode,
    alphabet: Seq<char>,
    last_size: (u32, u32),
    private: bool,
)
    ensures
        ({
            let s = HostState::empty(mode, alphabet, last_size, private);
            &&& s.tabs.len() == 0 && s.active is None && s.closed.len() == 0 && s.effects.len()
                == 0
            &&& s.mode == mode && s.alphabet == alphabet && s.last_size == last_size && s.private
                == private && s.next_id == 0
            &&& s.wf()
        }),
{
}

/// A host is well formed exactly if its active index is the index of a tab
/// and at most eight closed tabs are kept.
pub proof fn law_well_formed(s: HostState)
    ensures
        CLOSED_STACK_CAP == 8,
        s.wf() <==> s.tabs.len() <= usize::MAX && (s.active is None || s.active->0 < s.tabs.len())
            && s.closed.len() <= 8,
{
}

/// The active tab is the one at the active index.
pub proof fn law_active_tab(s: HostState)
    requires
        s.active matches Some(a) ==> a < s.tabs.len(),
    ensures
        s.active is None ==> s.active_state() is None,
        s.active matches Some(a) ==> s.active_state() == Some(s.tabs[a as int]),
{
}

/// A tab is found by its id at the first place that holds it; past the end if
/// none does.
pub proof fn law_position_is_the_first(tabs: Seq<TabState>, id: TabId)
    ensures
        0 <= position(tabs, id) <= tabs.len(),
        position(tabs, id) < tabs.len() ==> tabs[position(tabs, id)].id == id,
        forall|k: int| 0 <= k < position(tabs, id) ==> (#[trigger] tabs[k]).id != id,
    decreases tabs.len(),
{
    if tabs.len() > 0 && tabs[0].id != id {
        let rest = tabs.drop_first();
        law_position_is_the_first(rest, id);
        assert forall|k: int| 0 <= k < position(tabs, id) implies (#[trigger] tabs[k]).id != id by {
            if k > 0 {
                assert(rest[k - 1] == tabs[k]);
            }
        }
    }
}

/// A tab is found by its browser at the first place that holds it; past the
/// end if none does.
pub proof fn law_browser_position_is_the_first(tabs: Seq<TabState>, browser_id: i32)
    ensures
        0 <= browser_position(tabs, browser_id) <= tabs.len(),
        browser_position(tabs, browser_id) < tabs.len() ==> tabs[browser_position(
            tabs,
            browser_id,
        )].browser_id == browser_id,
        forall|k: int|
            0 <= k < browser_position(tabs, browser_id) ==> (#[trigger] tabs[k]).browser_id
                != browser_id,
    decreases tabs.len(),
{
    if tabs.len() > 0 && tabs[0].browser_id != browser_id {
        let rest = tabs.drop_first();
        law_browser_position_is_the_first(rest, browser_id);
        assert forall|k: int| 0 <= k < browser_position(tabs, browser_id) implies (
        #[trigger] tabs[k]).browser_id != browser_id by {
            if k > 0 {
                assert(rest[k - 1] == tabs[k]);
            }
        }
    }
}

/// Only blank pages are not worth keeping.
pub proof fn law_only_blank_pages_are_dropped(url: Seq<char>)
    ensures
        !stashable(url) <==> url.len() == 0 || url == "about:blank"@,
{
}

} // verus!
