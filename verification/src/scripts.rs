//! Scripts that the host injects into pages.
use vstd::prelude::*;

verus! {

/// Hint mode. The three placeholders stand inside string literals, but for
/// `__LABELS__`, which becomes an array literal.
pub const HINT_JS: &'static str = "(() => {
  const alphabet = '__ALPHABET__';
  const labels = __LABELS__;
  const selectors = '__SELECTORS__';
  const sentinel = '__buffr_hint__:';
  const emit = (payload) => console.log(sentinel + JSON.stringify(payload));
  const clear = () => {
    document.querySelectorAll('.buffr-hint-overlay').forEach((el) => el.remove());
    document.querySelectorAll('[data-buffr-hint-target-id]').forEach((el) =>
      el.removeAttribute('data-buffr-hint-target-id'));
  };
  const kindOf = (el) => {
    const tag = el.tagName.toLowerCase();
    const role = el.getAttribute('role');
    if (tag === 'a' || role === 'link') return 'link';
    if (tag === 'button' || role === 'button') return 'button';
    if (tag === 'input' || tag === 'textarea' || tag === 'select') return 'input';
    if (tag === 'form') return 'form';
    return 'other';
  };
  try {
    clear();
    const hints = [];
    for (const el of document.querySelectorAll(selectors)) {
      if (hints.length >= labels.length) break;
      const r = el.getBoundingClientRect();
      if (r.width < 1 || r.height < 1) continue;
      if (r.bottom < 0 || r.right < 0) continue;
      if (r.top > window.innerHeight || r.left > window.innerWidth) continue;
      const id = hints.length;
      const label = labels[id];
      el.setAttribute('data-buffr-hint-target-id', String(id));
      const box = document.createElement('div');
      box.className = 'buffr-hint-overlay';
      box.dataset.label = label;
      box.textContent = label;
      box.style.cssText = 'position:fixed;z-index:2147483647;padding:0 3px;' +
        'font:bold 12px monospace;background:#ffd76e;color:#1a1a1a;' +
        'left:' + Math.max(0, r.left) + 'px;top:' + Math.max(0, r.top) + 'px;';
      document.documentElement.appendChild(box);
      hints.push({
        id: id, label: label, x: Math.round(r.left), y: Math.round(r.top),
        w: Math.round(r.width), h: Math.round(r.height), kind: kindOf(el),
      });
    }
    window.__buffrHintFilter = (typed) => {
      document.querySelectorAll('.buffr-hint-overlay').forEach((el) => {
        el.style.opacity = el.dataset.label.startsWith(typed) ? '1' : '0.2';
      });
    };
    window.__buffrHintCommit = (id) => {
      const el = document.querySelector('[data-buffr-hint-target-id=\"' + id + '\"]');
      clear();
      if (!el) return;
      el.focus();
      el.click();
    };
    window.__buffrHintCancel = clear;
    emit({ kind: 'ready', hints: hints, alphabet: alphabet });
  } catch (e) {
    emit({ kind: 'error', message: String(e) });
  }
})();
";

/// Edit mode: reports focus, blur and input of editable fields, and lets the
/// host write to them.
pub const EDIT_JS: &'static str = "(() => {
  if (window.__buffrEditInstalled) return;
  window.__buffrEditInstalled = true;
  const sentinel = '%%SENTINEL%%';
  const active = '%%OVERLAY_CLASS%%';
  const emit = (payload) => console.log(sentinel + JSON.stringify(payload));
  let next = 1;
  const ids = new WeakMap();
  const fields = new Map();
  const idOf = (el) => {
    if (!ids.has(el)) {
      const id = 'f' + next++;
      ids.set(el, id);
      fields.set(id, el);
    }
    return ids.get(el);
  };
  const kindOf = (el) => {
    if (!el || !el.tagName) return null;
    if (el.tagName === 'TEXTAREA') return 'textarea';
    if (el.tagName === 'INPUT') return 'input';
    if (el.isContentEditable) return 'contentEditable';
    return null;
  };
  const valueOf = (el) => (kindOf(el) === 'contentEditable' ? el.innerText : el.value);
  const caret = (el, name) => {
    try { return el[name] === undefined ? null : el[name]; } catch (e) { return null; }
  };
  document.addEventListener('focusin', (ev) => {
    const kind = kindOf(ev.target);
    if (!kind) return;
    emit({
      type: 'focus', field_id: idOf(ev.target), kind: kind, value: valueOf(ev.target),
      selection_start: caret(ev.target, 'selectionStart'),
      selection_end: caret(ev.target, 'selectionEnd'),
    });
  }, true);
  document.addEventListener('focusout', (ev) => {
    if (kindOf(ev.target)) emit({ type: 'blur', field_id: idOf(ev.target) });
  }, true);
  document.addEventListener('input', (ev) => {
    if (!kindOf(ev.target)) return;
    emit({ type: 'mutate', field_id: idOf(ev.target), value: valueOf(ev.target) });
  }, true);
  window.__buffrEditApply = (id, value) => {
    const el = fields.get(id);
    if (!el) return;
    if (kindOf(el) === 'contentEditable') el.innerText = value; else el.value = value;
    el.dispatchEvent(new Event('input', { bubbles: true }));
  };
  window.__buffrEditAttach = (id) => {
    const el = fields.get(id);
    if (el) el.classList.add(active);
  };
  window.__buffrEditDetach = (id) => {
    const el = fields.get(id);
    if (el) el.classList.remove(active);
  };
  window.__buffrEditFocus = (id) => {
    const el = fields.get(id);
    if (el) el.focus();
  };
  window.__buffrCycleInput = (forward) => {
    const list = Array.from(document.querySelectorAll('input, textarea, [contenteditable]'))
      .filter((el) => el.getClientRects().length > 0 && !el.disabled);
    if (list.length === 0) return;
    const at = list.indexOf(document.activeElement);
    const to = (at + (forward ? 1 : -1) + list.length) - (at < 0 && !forward ? -1 : 0);
    list[to - list.length * Math.floor(to / list.length)].focus();
  };
  window.__buffrEmitSelection = () => {
    emit({ type: 'selection', value: String(window.getSelection()) });
  };
})();
";

/// Focus the first visible editable text field.
pub const FOCUS_FIRST_INPUT: &'static str = "(() => {
  const fields = document.querySelectorAll(
    'input:not([type=hidden]):not([type=submit]):not([type=button]), textarea, [contenteditable]');
  for (const el of fields) {
    const r = el.getBoundingClientRect();
    if (r.width > 0 && r.height > 0 && !el.disabled && !el.readOnly) {
      el.focus();
      return;
    }
  }
})();
";

/// Leave insert mode: an Escape key press, and the focus given up.
pub const EXIT_INSERT: &'static str = "(() => {
  const el = document.activeElement;
  if (!el) return;
  for (const type of ['keydown', 'keyup']) {
    el.dispatchEvent(new KeyboardEvent(type, { key: 'Escape', code: 'Escape', bubbles: true }));
  }
  if (el !== document.body) el.blur();
})();
";

/// Media probe: whether the media session plays or a video is full screen,
/// left in `window.__buffr_media_active` for a later read.
pub const MEDIA_PROBE_JS: &'static str =
    "(() => {\n  const ms = navigator.mediaSession?.playbackState === 'playing';\n  const fsv = document.fullscreenElement instanceof HTMLVideoElement;\n  window.__buffr_media_active = ms || fsv;\n})();";

/// Whether every character is ASCII.
pub open spec fn ascii(s: Seq<char>) -> bool {
    forall|i: int| 0 <= i < s.len() ==> (#[trigger] s[i]) <= '\u{7f}'
}

/// The hint script is ASCII. A literal is only unfolded where it is written
/// out, so its text stands here once more; over any other text the proof
/// fails.
pub proof fn lemma_hint_script_is_ascii()
    ensures
        ascii(HINT_JS@),
{
    reveal_strlit("(() => {
  const alphabet = '__ALPHABET__';
  const labels = __LABELS__;
  const selectors = '__SELECTORS__';
  const sentinel = '__buffr_hint__:';
  const emit = (payload) => console.log(sentinel + JSON.stringify(payload));
  const clear = () => {
    document.querySelectorAll('.buffr-hint-overlay').forEach((el) => el.remove());
    document.querySelectorAll('[data-buffr-hint-target-id]').forEach((el) =>
      el.removeAttribute('data-buffr-hint-target-id'));
  };
  const kindOf = (el) => {
    const tag = el.tagName.toLowerCase();
    const role = el.getAttribute('role');
    if (tag === 'a' || role === 'link') return 'link';
    if (tag === 'button' || role === 'button') return 'button';
    if (tag === 'input' || tag === 'textarea' || tag === 'select') return 'input';
    if (tag === 'form') return 'form';
    return 'other';
  };
  try {
    clear();
    const hints = [];
    for (const el of document.querySelectorAll(selectors)) {
      if (hints.length >= labels.length) break;
      const r = el.getBoundingClientRect();
      if (r.width < 1 || r.height < 1) continue;
      if (r.bottom < 0 || r.right < 0) continue;
      if (r.top > window.innerHeight || r.left > window.innerWidth) continue;
      const id = hints.length;
      const label = labels[id];
      el.setAttribute('data-buffr-hint-target-id', String(id));
      const box = document.createElement('div');
      box.className = 'buffr-hint-overlay';
      box.dataset.label = label;
      box.textContent = label;
      box.style.cssText = 'position:fixed;z-index:2147483647;padding:0 3px;' +
        'font:bold 12px monospace;background:#ffd76e;color:#1a1a1a;' +
        'left:' + Math.max(0, r.left) + 'px;top:' + Math.max(0, r.top) + 'px;';
      document.documentElement.appendChild(box);
      hints.push({
        id: id, label: label, x: Math.round(r.left), y: Math.round(r.top),
        w: Math.round(r.width), h: Math.round(r.height), kind: kindOf(el),
      });
    }
    window.__buffrHintFilter = (typed) => {
      document.querySelectorAll('.buffr-hint-overlay').forEach((el) => {
        el.style.opacity = el.dataset.label.startsWith(typed) ? '1' : '0.2';
      });
    };
    window.__buffrHintCommit = (id) => {
      const el = document.querySelector('[data-buffr-hint-target-id=\"' + id + '\"]');
      clear();
      if (!el) return;
      el.focus();
      el.click();
    };
    window.__buffrHintCancel = clear;
    emit({ kind: 'ready', hints: hints, alphabet: alphabet });
  } catch (e) {
    emit({ kind: 'error', message: String(e) });
  }
})();
");
}

} // verus!
