//! What each host operation asks of the browsers and what it changes in the
//! active tab.
use crate::hint::{
    hint_views, inject_script, law_fed_candidates_exist, HintConsoleEvent, SessionState,
    DEFAULT_HINT_SELECTORS,
};
use crate::host::{
    commit_code, duplicate_url, edit_code, effect_views, filter_code, resize_calls, scroll_code,
    str_view, summarizes, tab_id_text, title_text, url_recorded, urls_recorded, ClosedTab, Effect,
    HostCall, HostMode, PageAction, Tab, TabId, TabSummary,
};
use crate::js::literal;
use crate::label::label_set;
use crate::scripts::{EXIT_INSERT, FOCUS_FIRST_INPUT};
use crate::strip::{EffectState, HostState, TabState};
use crate::strip_laws::law_browser_position_is_the_first;
use crate::text::{decimal, signed_decimal};
use crate::url::short_name;
use vstd::prelude::*;

verus! {

/// A request joins the pending ones at the end, and nothing else changes.
pub proof fn law_requests_queue_up(s: HostState, e: EffectState)
    ensures
        s.emit(e) == (HostState { effects: s.effects + seq![e], ..s }),
{
    assert(s.emit(e) =~= HostState { effects: s.effects + seq![e], ..s });
}

/// A call goes to the active tab's browser alone, and replacing the active tab
/// touches no other one.
pub proof fn law_active_tab_is_addressed(s: HostState, a: int, c: HostCall, t: TabState)
    requires
        s.active == Some(a as usize),
        0 <= a < s.tabs.len() <= usize::MAX,
    ensures
        s.emit_active(c) == (HostState {
            effects: s.effects + seq![EffectState::Call { tab: s.tabs[a].id, call: c }],
            ..s
        }),
        s.with_active(t) == (HostState { tabs: s.tabs.update(a, t), ..s }),
        s.hint() == s.tabs[a].hint,
{
    assert(s.emit_active(c) =~= HostState {
        effects: s.effects + seq![EffectState::Call { tab: s.tabs[a].id, call: c }],
        ..s
    });
}

/// The next match of the active tab's search is looked for forwards and the
/// previous one backwards, both as steps of the search with its own query.
/// Nothing but the request is new.
pub proof fn law_find_steps(s: HostState, a: int, frame_url: Option<Seq<char>>, q: Seq<char>)
    requires
        s.active == Some(a as usize),
        0 <= a < s.tabs.len() <= usize::MAX,
        s.tabs[a].find_query == Some(q),
    ensures
        s.dispatched(PageAction::FindNext, frame_url) == (HostState {
            effects: s.effects + seq![
                EffectState::Find { tab: s.tabs[a].id, query: q, forward: true, find_next: true },
            ],
            ..s
        }),
        s.dispatched(PageAction::FindPrev, frame_url) == (HostState {
            effects: s.effects + seq![
                EffectState::Find { tab: s.tabs[a].id, query: q, forward: false, find_next: true },
            ],
            ..s
        }),
{
}

/// Without a search there is no match to step to.
pub proof fn law_no_search_no_step(s: HostState, a: int, frame_url: Option<Seq<char>>)
    requires
        s.active == Some(a as usize),
        0 <= a < s.tabs.len() <= usize::MAX,
        s.tabs[a].find_query is None,
    ensures
        s.dispatched(PageAction::FindNext, frame_url) == s,
        s.dispatched(PageAction::FindPrev, frame_url) == s,
{
}

/// Scrolling by pages runs one fixed script in the active tab: nine tenths of
/// the window for a page, half of it for half a page, down or up, and the two
/// ends of the document.
pub proof fn law_page_scrolling(s: HostState, a: int, frame_url: Option<Seq<char>>)
    requires
        s.active == Some(a as usize),
        0 <= a < s.tabs.len() <= usize::MAX,
    ensures
        s.dispatched(PageAction::ScrollPageDown, frame_url) == (HostState {
            effects: s.effects + seq![
                EffectState::RunJs {
                    tab: s.tabs[a].id,
                    code: "window.scrollBy(0, window.innerHeight * 0.9);"@,
                    url: "buffr://page-action"@,
                    line: 0,
                },
            ],
            ..s
        }),
        s.dispatched(PageAction::ScrollFullPageDown, frame_url) == (HostState {
            effects: s.effects + seq![
                EffectState::RunJs {
                    tab: s.tabs[a].id,
                    code: "window.scrollBy(0, window.innerHeight * 0.9);"@,
                    url: "buffr://page-action"@,
                    line: 0,
                },
            ],
            ..s
        }),
        s.dispatched(PageAction::ScrollPageUp, frame_url) == (HostState {
            effects: s.effects + seq![
                EffectState::RunJs {
                    tab: s.tabs[a].id,
                    code: "window.scrollBy(0, -window.innerHeight * 0.9);"@,
                    url: "buffr://page-action"@,
                    line: 0,
                },
            ],
            ..s
        }),
        s.dispatched(PageAction::ScrollFullPageUp, frame_url) == (HostState {
            effects: s.effects + seq![
                EffectState::RunJs {
                    tab: s.tabs[a].id,
                    code: "window.scrollBy(0, -window.innerHeight * 0.9);"@,
                    url: "buffr://page-action"@,
                    line: 0,
                },
            ],
            ..s
        }),
        s.dispatched(PageAction::ScrollHalfPageDown, frame_url) == (HostState {
            effects: s.effects + seq![
                EffectState::RunJs {
                    tab: s.tabs[a].id,
                    code: "window.scrollBy(0, window.innerHeight * 0.5);"@,
                    url: "buffr://page-action"@,
                    line: 0,
                },
            ],
            ..s
        }),
        s.dispatched(PageAction::ScrollHalfPageUp, frame_url) == (HostState {
            effects: s.effects + seq![
                EffectState::RunJs {
                    tab: s.tabs[a].id,
                    code: "window.scrollBy(0, -window.innerHeight * 0.5);"@,
                    url: "buffr://page-action"@,
                    line: 0,
                },
            ],
            ..s
        }),
        s.dispatched(PageAction::ScrollTop, frame_url) == (HostState {
            effects: s.effects + seq![
                EffectState::RunJs {
                    tab: s.tabs[a].id,
                    code: "window.scrollTo(0, 0);"@,
                    url: "buffr://page-action"@,
                    line: 0,
                },
            ],
            ..s
        }),
        s.dispatched(PageAction::ScrollBottom, frame_url) == (HostState {
            effects: s.effects + seq![
                EffectState::RunJs {
                    tab: s.tabs[a].id,
                    code: "window.scrollTo(0, document.body.scrollHeight);"@,
                    url: "buffr://page-action"@,
                    line: 0,
                },
            ],
            ..s
        }),
{
}

/// A scroll step is forty pixels: down and right count up, up and left count
/// down, and the other direction stays.
pub proof fn law_step_scrolling(s: HostState, a: int, frame_url: Option<Seq<char>>, n: u32)
    requires
        s.active == Some(a as usize),
        0 <= a < s.tabs.len() <= usize::MAX,
    ensures
        s.dispatched(PageAction::ScrollDown(n), frame_url) == (HostState {
            effects: s.effects + seq![
                EffectState::RunJs {
                    tab: s.tabs[a].id,
                    code: "window.scrollBy("@ + decimal(0) + ", "@ + decimal((40 * n) as nat) + ");"@,
                    url: "buffr://page-action"@,
                    line: 0,
                },
            ],
            ..s
        }),
        s.dispatched(PageAction::ScrollRight(n), frame_url) == (HostState {
            effects: s.effects + seq![
                EffectState::RunJs {
                    tab: s.tabs[a].id,
                    code: "window.scrollBy("@ + decimal((40 * n) as nat) + ", "@ + decimal(0) + ");"@,
                    url: "buffr://page-action"@,
                    line: 0,
                },
            ],
            ..s
        }),
{
}

/// Scrolling up or left by steps counts down; no step stays where it is.
pub proof fn law_step_scrolling_back(s: HostState, a: int, frame_url: Option<Seq<char>>, n: u32)
    requires
        s.active == Some(a as usize),
        0 <= a < s.tabs.len() <= usize::MAX,
    ensures
        s.dispatched(PageAction::ScrollUp(n), frame_url) == (HostState {
            effects: s.effects + seq![
                EffectState::RunJs {
                    tab: s.tabs[a].id,
                    code: "window.scrollBy("@ + decimal(0) + ", "@ + (if n == 0 {
                        decimal(0)
                    } else {
                        seq!['-'] + decimal((40 * n) as nat)
                    }) + ");"@,
                    url: "buffr://page-action"@,
                    line: 0,
                },
            ],
            ..s
        }),
        s.dispatched(PageAction::ScrollLeft(n), frame_url) == (HostState {
            effects: s.effects + seq![
                EffectState::RunJs {
                    tab: s.tabs[a].id,
                    code: "window.scrollBy("@ + (if n == 0 {
                        decimal(0)
                    } else {
                        seq!['-'] + decimal((40 * n) as nat)
                    }) + ", "@ + decimal(0) + ");"@,
                    url: "buffr://page-action"@,
                    line: 0,
                },
            ],
            ..s
        }),
{
}

/// History, reloading, zoom, the developer tools and the clipboard are calls
/// on the active tab's browser, one each.
pub proof fn law_browser_calls(s: HostState, a: int, frame_url: Option<Seq<char>>)
    requires
        s.active == Some(a as usize),
        0 <= a < s.tabs.len() <= usize::MAX,
    ensures
        s.dispatched(PageAction::HistoryBack, frame_url) == (HostState {
            effects: s.effects + seq![
                EffectState::Call { tab: s.tabs[a].id, call: HostCall::GoBack },
            ],
            ..s
        }),
        s.dispatched(PageAction::HistoryForward, frame_url) == (HostState {
            effects: s.effects + seq![
                EffectState::Call { tab: s.tabs[a].id, call: HostCall::GoForward },
            ],
            ..s
        }),
        s.dispatched(PageAction::Reload, frame_url) == (HostState {
            effects: s.effects + seq![
                EffectState::Call { tab: s.tabs[a].id, call: HostCall::Reload },
            ],
            ..s
        }),
        s.dispatched(PageAction::ReloadHard, frame_url) == (HostState {
            effects: s.effects + seq![
                EffectState::Call { tab: s.tabs[a].id, call: HostCall::ReloadIgnoreCache },
            ],
            ..s
        }),
        s.dispatched(PageAction::StopLoading, frame_url) == (HostState {
            effects: s.effects + seq![
                EffectState::Call { tab: s.tabs[a].id, call: HostCall::StopLoad },
            ],
            ..s
        }),
        s.dispatched(PageAction::ZoomIn, frame_url) == (HostState {
            effects: s.effects + seq![
                EffectState::Call { tab: s.tabs[a].id, call: HostCall::ZoomIn },
            ],
            ..s
        }),
        s.dispatched(PageAction::ZoomOut, frame_url) == (HostState {
            effects: s.effects + seq![
                EffectState::Call { tab: s.tabs[a].id, call: HostCall::ZoomOut },
            ],
            ..s
        }),
        s.dispatched(PageAction::OpenDevTools, frame_url) == (HostState {
            effects: s.effects + seq![
                EffectState::Call { tab: s.tabs[a].id, call: HostCall::ShowDevTools },
            ],
            ..s
        }),
        s.dispatched(PageAction::YankUrl, frame_url) == (HostState {
            effects: s.effects + seq![
                EffectState::Call { tab: s.tabs[a].id, call: HostCall::YankUrl },
            ],
            ..s
        }),
        s.dispatched(PageAction::ZoomReset, frame_url) == (HostState {
            effects: s.effects + seq![EffectState::ResetZoom { tab: Some(s.tabs[a].id) }],
            ..s
        }),
{
}

/// Opening a tab and clearing the downloads need no active tab, and a new tab
/// shows a blank page.
pub proof fn law_requests_without_a_tab(s: HostState, frame_url: Option<Seq<char>>)
    ensures
        s.dispatched(PageAction::TabNew, frame_url) == (HostState {
            effects: s.effects + seq![EffectState::OpenTab { url: "about:blank"@ }],
            ..s
        }),
        s.dispatched(PageAction::TabNewRight, frame_url) == (HostState {
            effects: s.effects + seq![EffectState::OpenTab { url: "about:blank"@ }],
            ..s
        }),
        s.dispatched(PageAction::TabNewLeft, frame_url) == (HostState {
            effects: s.effects + seq![EffectState::OpenTab { url: "about:blank"@ }],
            ..s
        }),
        s.dispatched(PageAction::ClearCompletedDownloads, frame_url) == (HostState {
            effects: s.effects + seq![EffectState::ClearCompletedDownloads],
            ..s
        }),
{
}

/// Focusing the first field and leaving insert mode run their script in the
/// active tab.
pub proof fn law_page_scripts(s: HostState, a: int, frame_url: Option<Seq<char>>)
    requires
        s.active == Some(a as usize),
        0 <= a < s.tabs.len() <= usize::MAX,
    ensures
        s.dispatched(PageAction::FocusFirstInput, frame_url) == (HostState {
            effects: s.effects + seq![
                EffectState::RunJs {
                    tab: s.tabs[a].id,
                    code: FOCUS_FIRST_INPUT@,
                    url: "buffr://page-action"@,
                    line: 0,
                },
            ],
            ..s
        }),
        s.dispatched(PageAction::ExitInsertMode, frame_url) == (HostState {
            effects: s.effects + seq![
                EffectState::RunJs {
                    tab: s.tabs[a].id,
                    code: EXIT_INSERT@,
                    url: "buffr://page-action"@,
                    line: 0,
                },
            ],
            ..s
        }),
{
}

/// Actions that belong to the chrome change nothing here.
pub proof fn law_chrome_actions_pass_by(
    s: HostState,
    action: PageAction,
    frame_url: Option<Seq<char>>,
)
    requires
        action is Find || action is PasteUrl || action is OpenOmnibar || action is OpenCommandLine
            || action is EnterMode || action is EnterInsertMode,
    ensures
        s.dispatched(action, frame_url) == s,
{
}

/// Without an active tab an action changes nothing, unless it opens or
/// switches tabs, moves one by its index, clears the downloads or forgets the
/// zoom level.
pub proof fn law_no_tab_no_action(s: HostState, action: PageAction, frame_url: Option<Seq<char>>)
    requires
        s.active is None,
        !(action is TabNew || action is TabNewRight || action is TabNewLeft || action is TabNext
            || action is TabPrev || action is ReopenClosedTab || action is TabReorder || action
            is ClearCompletedDownloads || action is ZoomReset),
    ensures
        s.dispatched(action, frame_url) == s,
        s.dispatched(PageAction::ZoomReset, frame_url) == (HostState {
            effects: s.effects + seq![EffectState::ResetZoom { tab: None }],
            ..s
        }),
{
    assert(s.dispatched(PageAction::ZoomReset, frame_url) =~= HostState {
        effects: s.effects + seq![EffectState::ResetZoom { tab: None }],
        ..s
    });
}

/// The tab actions are the operations on the strip: switching, closing the
/// active tab, reopening, and moving by index.
pub proof fn law_tab_actions(
    s: HostState,
    a: int,
    frame_url: Option<Seq<char>>,
    from: u32,
    to: u32,
)
    requires
        s.active == Some(a as usize),
        0 <= a < s.tabs.len() <= usize::MAX,
    ensures
        s.dispatched(PageAction::TabNext, frame_url) == s.next(),
        s.dispatched(PageAction::TabPrev, frame_url) == s.prev(),
        s.dispatched(PageAction::TabClose, frame_url) == s.closed_at(a),
        s.dispatched(PageAction::ReopenClosedTab, frame_url) == s.reopened(),
        s.dispatched(PageAction::TabReorder { from, to }, frame_url) == s.moved(
            from as int,
            to as int,
        ),
{
}

/// Switching, reopening and moving by index work without an active tab too.
pub proof fn law_tab_actions_without_active(
    s: HostState,
    frame_url: Option<Seq<char>>,
    from: u32,
    to: u32,
)
    ensures
        s.dispatched(PageAction::TabNext, frame_url) == s.next(),
        s.dispatched(PageAction::TabPrev, frame_url) == s.prev(),
        s.dispatched(PageAction::ReopenClosedTab, frame_url) == s.reopened(),
        s.dispatched(PageAction::TabReorder { from, to }, frame_url) == s.moved(
            from as int,
            to as int,
        ),
{
}

/// Moving the active tab left swaps it with the tab before it, moving it right
/// with the tab after it; it stays active, and at the end of the strip nothing
/// happens.
pub proof fn law_moving_the_active_tab(s: HostState, a: int, frame_url: Option<Seq<char>>)
    requires
        s.active == Some(a as usize),
        0 <= a < s.tabs.len() <= usize::MAX,
    ensures
        s.dispatched(PageAction::MoveTabLeft, frame_url) == if a == 0 {
            s
        } else {
            HostState {
                tabs: s.tabs.update(a - 1, s.tabs[a]).update(a, s.tabs[a - 1]),
                active: Some((a - 1) as usize),
                ..s
            }
        },
        s.dispatched(PageAction::MoveTabRight, frame_url) == if a == s.tabs.len() - 1 {
            s
        } else {
            HostState {
                tabs: s.tabs.update(a + 1, s.tabs[a]).update(a, s.tabs[a + 1]),
                active: Some((a + 1) as usize),
                ..s
            }
        },
{
    if a > 0 {
        assert(s.tabs.remove(a).insert(a - 1, s.tabs[a]) =~= s.tabs.update(
            a - 1,
            s.tabs[a],
        ).update(a, s.tabs[a - 1]));
    }
    if a < s.tabs.len() - 1 {
        assert(s.tabs.remove(a).insert(a + 1, s.tabs[a]) =~= s.tabs.update(
            a + 1,
            s.tabs[a],
        ).update(a, s.tabs[a + 1]));
    }
}

/// Pinning flips the active tab's pin and touches nothing else; twice is as
/// before.
pub proof fn law_pinning_flips(s: HostState, a: int, frame_url: Option<Seq<char>>)
    requires
        s.active == Some(a as usize),
        0 <= a < s.tabs.len() <= usize::MAX,
    ensures
        s.dispatched(PageAction::PinTab, frame_url) == (HostState {
            tabs: s.tabs.update(a, TabState { pinned: !s.tabs[a].pinned, ..s.tabs[a] }),
            ..s
        }),
        s.dispatched(PageAction::PinTab, frame_url).dispatched(PageAction::PinTab, frame_url) == s,
{
    let t = TabState { pinned: !s.tabs[a].pinned, ..s.tabs[a] };
    assert(s.tabs.update(a, t).update(a, s.tabs[a]) =~= s.tabs);
}

/// Hint mode starts with an empty session of the host's alphabet on the active
/// tab, and asks the page for its targets by the hint script with that
/// alphabet, its first 256 labels and the default selectors. The two ways to
/// enter it differ in where a target is opened.
pub proof fn law_entering_hint_mode(s: HostState, a: int, background: bool, url: Seq<char>)
    requires
        s.active == Some(a as usize),
        0 <= a < s.tabs.len() <= usize::MAX,
    ensures
        s.dispatched(
            if background {
                PageAction::EnterHintModeBackground
            } else {
                PageAction::EnterHintMode
            },
            Some(url),
        ) == s.hint_entered(background, Some(url)),
        s.hint_entered(background, Some(url)) == (HostState {
            tabs: s.tabs.update(
                a,
                TabState {
                    hint: Some(
                        SessionState {
                            alphabet: s.alphabet,
                            hints: Seq::empty(),
                            typed: Seq::empty(),
                            matches: Seq::empty(),
                            background,
                        },
                    ),
                    ..s.tabs[a]
                },
            ),
            effects: s.effects + seq![
                EffectState::RunJs {
                    tab: s.tabs[a].id,
                    code: inject_script(
                        s.alphabet,
                        label_set(s.alphabet, 256),
                        DEFAULT_HINT_SELECTORS@,
                    ),
                    url,
                    line: 1,
                },
            ],
            ..s
        }),
{
    let r = s.hint_entered(background, Some(url));
    let h = SessionState::started(s.alphabet, Seq::empty(), background);
    assert(h =~= SessionState {
        alphabet: s.alphabet,
        hints: Seq::empty(),
        typed: Seq::empty(),
        matches: Seq::empty(),
        background,
    });
    assert(r =~= HostState { tabs: r.tabs, effects: r.effects, ..s });
}

/// Without a main frame hint mode is not entered: what is left of an earlier
/// session goes, and the page is told so.
pub proof fn law_hint_mode_needs_a_frame(s: HostState, a: int, background: bool)
    requires
        s.active == Some(a as usize),
        0 <= a < s.tabs.len() <= usize::MAX,
    ensures
        s.dispatched(
            if background {
                PageAction::EnterHintModeBackground
            } else {
                PageAction::EnterHintMode
            },
            None,
        ) == s.hint_entered(background, None),
        s.hint_entered(background, None) == (HostState {
            tabs: s.tabs.update(a, TabState { hint: None, ..s.tabs[a] }),
            effects: s.effects + seq![
                EffectState::RunJs {
                    tab: s.tabs[a].id,
                    code: "if (window.__buffrHintCancel) window.__buffrHintCancel()"@,
                    url: "buffr://hint"@,
                    line: 1,
                },
            ],
            ..s
        }),
{
    let r = s.hint_entered(background, None);
    assert(r =~= HostState {
        tabs: s.tabs.update(a, TabState { hint: None, ..s.tabs[a] }),
        effects: r.effects,
        ..s
    });
}

/// Leaving hint mode drops the active tab's session and removes the overlays.
pub proof fn law_cancelling_hints(s: HostState, a: int)
    requires
        s.active == Some(a as usize),
        0 <= a < s.tabs.len() <= usize::MAX,
    ensures
        s.hint_cancelled() == (HostState {
            tabs: s.tabs.update(a, TabState { hint: None, ..s.tabs[a] }),
            effects: s.effects + seq![
                EffectState::RunJs {
                    tab: s.tabs[a].id,
                    code: "if (window.__buffrHintCancel) window.__buffrHintCancel()"@,
                    url: "buffr://hint"@,
                    line: 1,
                },
            ],
            ..s
        }),
{
    let r = s.hint_cancelled();
    assert(r =~= HostState { tabs: r.tabs, effects: r.effects, ..s });
}

/// A key in hint mode goes to the active tab's session. As long as no label
/// is complete the page dims what no longer matches the typed text; the
/// last letter of a label sends the element of its hint and ends the session;
/// a letter that no label continues with ends it too.
pub proof fn law_hint_keys(s: HostState, a: int, h: SessionState, ch: char)
    requires
        s.active == Some(a as usize),
        0 <= a < s.tabs.len() <= usize::MAX,
        s.tabs[a].hint == Some(h),
    ensures
        ({
            let n = h.fed(ch);
            let committed = n.matches.len() == 1 && h.hints[n.matches[0] as int].label == h.typed
                + seq![ch];
            &&& n.matches.len() == 0 ==> s.hint_key(ch) == (HostState {
                tabs: s.tabs.update(a, TabState { hint: None, ..s.tabs[a] }),
                effects: s.effects + seq![
                    EffectState::RunJs {
                        tab: s.tabs[a].id,
                        code: "if (window.__buffrHintCancel) window.__buffrHintCancel()"@,
                        url: "buffr://hint"@,
                        line: 1,
                    },
                ],
                ..s
            })
            &&& committed ==> s.hint_key(ch) == (HostState {
                tabs: s.tabs.update(a, TabState { hint: None, ..s.tabs[a] }),
                effects: s.effects + seq![
                    EffectState::RunJs {
                        tab: s.tabs[a].id,
                        code: "if (window.__buffrHintCommit) window.__buffrHintCommit("@ + decimal(
                            h.hints[n.matches[0] as int].element_id as nat,
                        ) + ")"@,
                        url: "buffr://hint"@,
                        line: 1,
                    },
                ],
                ..s
            })
            &&& n.matches.len() > 0 && !committed ==> s.hint_key(ch) == (HostState {
                tabs: s.tabs.update(a, TabState { hint: Some(n), ..s.tabs[a] }),
                effects: s.effects + seq![
                    EffectState::RunJs {
                        tab: s.tabs[a].id,
                        code: "if (window.__buffrHintFilter) window.__buffrHintFilter("@ + literal(
                            '"',
                            h.typed + seq![ch],
                        ) + ")"@,
                        url: "buffr://hint"@,
                        line: 1,
                    },
                ],
                ..s
            })
        }),
{
    let r = s.hint_key(ch);
    let n = h.fed(ch);
    assert(n.typed =~= h.typed + seq![ch]);
    if n.matches.len() == 1 {
        law_fed_candidates_exist(h, ch, 0);
    }
    assert(r =~= HostState { tabs: r.tabs, effects: r.effects, ..s });
}

/// Keys and backspaces do nothing outside hint mode.
pub proof fn law_hint_keys_need_a_session(s: HostState, ch: char)
    requires
        s.active matches Some(a) ==> a < s.tabs.len() && s.tabs[a as int].hint is None,
    ensures
        s.hint_key(ch) == s,
        s.hint_backspaced() == s,
{
}

/// A backspace in hint mode drops the last typed letter and shows the page the
/// shorter text; with nothing typed it leaves hint mode.
pub proof fn law_hint_backspace(s: HostState, a: int, h: SessionState)
    requires
        s.active == Some(a as usize),
        0 <= a < s.tabs.len() <= usize::MAX,
        s.tabs[a].hint == Some(h),
    ensures
        h.typed.len() == 0 ==> s.hint_backspaced() == (HostState {
            tabs: s.tabs.update(a, TabState { hint: None, ..s.tabs[a] }),
            effects: s.effects + seq![
                EffectState::RunJs {
                    tab: s.tabs[a].id,
                    code: "if (window.__buffrHintCancel) window.__buffrHintCancel()"@,
                    url: "buffr://hint"@,
                    line: 1,
                },
            ],
            ..s
        }),
        h.typed.len() > 0 ==> s.hint_backspaced() == (HostState {
            tabs: s.tabs.update(a, TabState { hint: Some(h.backspaced()), ..s.tabs[a] }),
            effects: s.effects + seq![
                EffectState::RunJs {
                    tab: s.tabs[a].id,
                    code: "if (window.__buffrHintFilter) window.__buffrHintFilter("@ + literal(
                        '"',
                        h.typed.take(h.typed.len() - 1),
                    ) + ")"@,
                    url: "buffr://hint"@,
                    line: 1,
                },
            ],
            ..s
        }),
{
    let r = s.hint_backspaced();
    if h.typed.len() > 0 {
        assert(h.backspaced().typed =~= h.typed.take(h.typed.len() - 1));
    }
    assert(r =~= HostState { tabs: r.tabs, effects: r.effects, ..s });
}

/// The reported targets start the waiting session afresh, with the host's
/// alphabet and the way of opening it was entered with. A report without a
/// waiting session is ignored, and a failed script ends hint mode.
pub proof fn law_hint_reports(
    s: HostState,
    a: int,
    hints: Vec<crate::hint::Hint>,
    alphabet: String,
    message: String,
)
    requires
        s.active == Some(a as usize),
        0 <= a < s.tabs.len() <= usize::MAX,
    ensures
        s.tabs[a].hint is None ==> s.hint_event(HintConsoleEvent::Ready { hints, alphabet }) == s,
        s.tabs[a].hint matches Some(h) ==> s.hint_event(HintConsoleEvent::Ready { hints, alphabet })
            == (HostState {
            tabs: s.tabs.update(
                a,
                TabState {
                    hint: Some(
                        SessionState {
                            alphabet: s.alphabet,
                            hints: hint_views(hints@),
                            typed: Seq::empty(),
                            matches: Seq::new(hints@.len(), |i: int| i as usize),
                            background: h.background,
                        },
                    ),
                    ..s.tabs[a]
                },
            ),
            ..s
        }),
        s.hint_event(HintConsoleEvent::Error { message }) == (HostState {
            tabs: s.tabs.update(a, TabState { hint: None, ..s.tabs[a] }),
            effects: s.effects + seq![
                EffectState::RunJs {
                    tab: s.tabs[a].id,
                    code: "if (window.__buffrHintCancel) window.__buffrHintCancel()"@,
                    url: "buffr://hint"@,
                    line: 1,
                },
            ],
            ..s
        }),
{
    if let Some(h) = s.tabs[a].hint {
        assert(SessionState::started(s.alphabet, hint_views(hints@), h.background)
            =~= SessionState {
            alphabet: s.alphabet,
            hints: hint_views(hints@),
            typed: Seq::empty(),
            matches: Seq::new(hints@.len(), |i: int| i as usize),
            background: h.background,
        });
    }
    law_cancelling_hints(s, a);
}

/// Input reaches the active tab's browser unchanged when pages are drawn
/// off-screen, and is left to the native window otherwise.
pub proof fn law_input_is_forwarded(s: HostState, a: int, c: HostCall)
    requires
        s.active == Some(a as usize),
        0 <= a < s.tabs.len() <= usize::MAX,
    ensures
        s.mode == HostMode::Osr ==> s.forwarded(c) == (HostState {
            effects: s.effects + seq![EffectState::Call { tab: s.tabs[a].id, call: c }],
            ..s
        }),
        s.mode == HostMode::Windowed ==> s.forwarded(c) == s,
{
    assert(s.mode == HostMode::Osr ==> s.forwarded(c) =~= HostState {
        effects: s.effects + seq![EffectState::Call { tab: s.tabs[a].id, call: c }],
        ..s
    });
}

/// Ending a search forgets its query and tells the browser.
pub proof fn law_stopping_a_search(s: HostState, a: int)
    requires
        s.active == Some(a as usize),
        0 <= a < s.tabs.len() <= usize::MAX,
    ensures
        s.find_stopped() == (HostState {
            tabs: s.tabs.update(a, TabState { find_query: None, ..s.tabs[a] }),
            effects: s.effects + seq![
                EffectState::Call { tab: s.tabs[a].id, call: HostCall::StopFinding },
            ],
            ..s
        }),
{
    let r = s.find_stopped();
    assert(r =~= HostState { tabs: r.tabs, effects: r.effects, ..s });
}

/// Scripts run in the active tab's main frame, each kind under its own
/// address.
pub proof fn law_scripts_run_in_the_active_tab(s: HostState, a: int, code: Seq<char>)
    requires
        s.active == Some(a as usize),
        0 <= a < s.tabs.len() <= usize::MAX,
    ensures
        s.ran_page_js(code) == (HostState {
            effects: s.effects + seq![
                EffectState::RunJs {
                    tab: s.tabs[a].id,
                    code,
                    url: "buffr://page-action"@,
                    line: 0,
                },
            ],
            ..s
        }),
        s.ran_hint_js(code) == (HostState {
            effects: s.effects + seq![
                EffectState::RunJs { tab: s.tabs[a].id, code, url: "buffr://hint"@, line: 1 },
            ],
            ..s
        }),
        s.ran_edit_js(code) == (HostState {
            effects: s.effects + seq![
                EffectState::RunJs { tab: s.tabs[a].id, code, url: "buffr://edit"@, line: 1 },
            ],
            ..s
        }),
{
    assert(s.ran_page_js(code) =~= HostState { effects: s.ran_page_js(code).effects, ..s });
    assert(s.ran_hint_js(code) =~= HostState { effects: s.ran_hint_js(code).effects, ..s });
    assert(s.ran_edit_js(code) =~= HostState { effects: s.ran_edit_js(code).effects, ..s });
}

/// Without an active tab no script runs, no input is forwarded, no search ends
/// and hint mode is neither entered nor left.
pub proof fn law_no_tab_no_request(
    s: HostState,
    code: Seq<char>,
    c: HostCall,
    event: HintConsoleEvent,
    background: bool,
    frame_url: Option<Seq<char>>,
)
    requires
        s.active is None,
    ensures
        s.ran_page_js(code) == s,
        s.ran_hint_js(code) == s,
        s.ran_edit_js(code) == s,
        s.forwarded(c) == s,
        s.emit_active(c) == s,
        s.find_stopped() == s,
        s.hint_cancelled() == s,
        s.hint_event(event) == s,
        s.hint_entered(background, frame_url) == s,
        s.hint() is None,
{
}

/// The calls of an edit-mode script end after their arguments.
pub proof fn law_edit_call(head: Seq<char>, args: Seq<char>)
    ensures
        edit_code(head, args) == head + args + ")"@,
{
}

/// A resize asks every tab, in order, to lay out again.
pub proof fn law_resize_reaches_every_tab(tabs: Seq<TabState>, i: int)
    requires
        0 <= i < tabs.len(),
    ensures
        resize_calls(tabs).len() == tabs.len(),
        resize_calls(tabs)[i] == (EffectState::Call {
            tab: tabs[i].id,
            call: HostCall::WasResized,
        }),
{
}

/// A duplicate shows the same page, and a blank one for a tab without a URL.
pub proof fn law_duplicate_shows_the_same(t: TabState)
    ensures
        t.url.len() > 0 ==> duplicate_url(t) == t.url,
        t.url.len() == 0 ==> duplicate_url(t) == "about:blank"@,
{
}

/// An address change reaches the first tab of that browser and changes nothing
/// but its URL; one of an unknown browser is ignored.
pub proof fn law_address_reaches_its_tab(
    tabs: Seq<TabState>,
    browser_id: i32,
    url: Seq<char>,
    i: int,
)
    requires
        0 <= i <= tabs.len(),
        forall|k: int| 0 <= k < i ==> (#[trigger] tabs[k]).browser_id != browser_id,
        i < tabs.len() ==> tabs[i].browser_id == browser_id,
    ensures
        url_recorded(tabs, browser_id, url) == if i < tabs.len() {
            tabs.update(i, TabState { url, ..tabs[i] })
        } else {
            tabs
        },
{
    law_browser_position_is_the_first(tabs, browser_id);
}

/// Address changes take effect one after the other, in order.
pub proof fn law_addresses_in_order(
    tabs: Seq<TabState>,
    changes: Seq<(i32, String)>,
    next: (i32, String),
)
    ensures
        urls_recorded(tabs, Seq::empty()) == tabs,
        urls_recorded(tabs, changes + seq![next]) == url_recorded(
            urls_recorded(tabs, changes),
            next.0,
            next.1@,
        ),
{
    assert((changes + seq![next]).drop_last() =~= changes);
}

/// A tab is called after its page title, or after its address without one, or
/// by its number without either.
pub proof fn law_tab_titles(t: TabState)
    ensures
        t.title is Some && t.title->0.len() > 0 ==> title_text(t) == t.title->0,
        (t.title is None || t.title->0.len() == 0) && t.url.len() > 0 ==> title_text(t)
            == short_name(t.url),
        (t.title is None || t.title->0.len() == 0) && t.url.len() == 0 ==> title_text(t) == "tab#"@
            + decimal(t.id.0 as nat),
        tab_id_text(t.id) == "tab#"@ + decimal(t.id.0 as nat),
{
}

/// The summary of a tab says of each thing what holds of that tab.
pub proof fn law_summary_is_exact(r: TabSummary, t: TabState, private: bool)
    ensures
        summarizes(r, t, private) <==> r.id == t.id && r.title@ == title_text(t) && r.url@ == t.url
            && r.progress == t.progress && r.is_loading == t.is_loading && r.pinned == t.pinned
            && r.private == private,
{
}

/// A tab is read off field by field.
pub proof fn law_tab_is_read_off(t: Tab, c: ClosedTab)
    ensures
        t@.id == t.id,
        t@.browser_id == t.browser_id,
        t@.url == t.url@,
        t.title is None <==> t@.title is None,
        t.title is Some ==> t@.title == Some(t.title->0@),
        t@.progress == t.progress,
        t@.is_loading == t.is_loading,
        t@.pinned == t.pinned,
        t.session.find_query is None <==> t@.find_query is None,
        t.session.find_query is Some ==> t@.find_query == Some(t.session.find_query->0@),
        t.session.hint_session is None <==> t@.hint is None,
        t.session.hint_session is Some ==> t@.hint == Some(t.session.hint_session->0@),
        c@.tab == c.tab@,
        c@.index == c.index,
{
}

/// A request is read off part by part, so the requests that are stated are the
/// requests that are handed out.
pub proof fn law_request_is_read_off(
    tab: TabId,
    to: Option<TabId>,
    call: HostCall,
    text: String,
    url: String,
    line: i32,
    forward: bool,
    find_next: bool,
)
    ensures
        (Effect::Call { tab, call })@ == (EffectState::Call { tab, call }),
        (Effect::RunJs { tab, code: text, url, line })@ == (EffectState::RunJs {
            tab,
            code: text@,
            url: url@,
            line,
        }),
        (Effect::LoadUrl { tab, url })@ == (EffectState::LoadUrl { tab, url: url@ }),
        (Effect::Find { tab, query: text, forward, find_next })@ == (EffectState::Find {
            tab,
            query: text@,
            forward,
            find_next,
        }),
        (Effect::OpenTab { url })@ == (EffectState::OpenTab { url: url@ }),
        (Effect::ResetZoom { tab: to })@ == (EffectState::ResetZoom { tab: to }),
        Effect::ClearCompletedDownloads@ == EffectState::ClearCompletedDownloads,
        Effect::CountTabOpened@ == EffectState::CountTabOpened,
{
}

/// The requests are handed out all and in order.
pub proof fn law_requests_in_order(list: Seq<Effect>, i: int)
    requires
        0 <= i < list.len(),
    ensures
        effect_views(list).len() == list.len(),
        effect_views(list)[i] == list[i]@,
{
}

/// The scripts of hint mode and of scrolling.
pub proof fn law_script_texts(typed: Seq<char>, id: u32, dx: int, dy: int)
    ensures
        filter_code(typed) == "if (window.__buffrHintFilter) window.__buffrHintFilter("@ + literal(
            '"',
            typed,
        ) + ")"@,
        commit_code(id) == "if (window.__buffrHintCommit) window.__buffrHintCommit("@ + decimal(
            id as nat,
        ) + ")"@,
        scroll_code(dx, dy) == "window.scrollBy("@ + signed_decimal(dx) + ", "@ + signed_decimal(dy)
            + ");"@,
{
}

/// A text that may be missing is read off as it is.
pub proof fn law_optional_text(s: Option<&str>)
    ensures
        s is None <==> str_view(s) is None,
        s is Some ==> str_view(s) == Some(s->0@),
{
}

} // verus!
