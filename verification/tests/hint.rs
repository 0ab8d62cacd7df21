use buffr_core::hint::{
    build_inject_script, console_payload, new_hint_event_sink, store_hint_event, take_hint_event,
    Hint, HintAction, HintAlphabet, HintConsoleEvent, HintError, HintKind, HintRect, HintSession,
    DEFAULT_HINT_ALPHABET, DEFAULT_HINT_SELECTORS, HINT_OVERLAY_CLASS, HINT_OVERLAY_Z_INDEX,
};
use buffr_core::scripts::HINT_JS;

fn alpha(s: &str) -> HintAlphabet {
    HintAlphabet::from_str(s).expect("alphabet")
}

// ---- HintAlphabet --------------------------------------------------

#[test]
fn alphabet_rejects_empty() {
    assert_eq!(HintAlphabet::from_str(""), Err(HintError::AlphabetTooSmall));
}

#[test]
fn alphabet_rejects_single_char() {
    assert_eq!(
        HintAlphabet::from_str("a"),
        Err(HintError::AlphabetTooSmall)
    );
}

#[test]
fn alphabet_rejects_duplicate() {
    assert_eq!(
        HintAlphabet::from_str("abca"),
        Err(HintError::DuplicateChar('a'))
    );
}

#[test]
fn alphabet_accepts_default() {
    let a = HintAlphabet::from_str(DEFAULT_HINT_ALPHABET).unwrap();
    assert_eq!(a.len(), DEFAULT_HINT_ALPHABET.chars().count());
}

#[test]
fn alphabet_round_trips() {
    let a = alpha("asdf");
    assert_eq!(a.as_string(), "asdf");
}

#[test]
fn alphabet_handles_unicode() {
    let a = HintAlphabet::from_str("αβγδ").unwrap();
    assert_eq!(a.len(), 4);
    let labels = a.labels_for(2);
    assert_eq!(labels, vec!["α".to_string(), "β".to_string()]);
}

// ---- labels_for boundaries ----------------------------------------

#[test]
fn labels_zero() {
    assert_eq!(alpha("asdf").labels_for(0), Vec::<String>::new());
}

#[test]
fn labels_one() {
    assert_eq!(alpha("asdf").labels_for(1), vec!["a".to_string()]);
}

#[test]
fn labels_alphabet_len_minus_one() {
    let a = alpha("asdf");
    assert_eq!(a.labels_for(3), vec!["a", "s", "d"]);
}

#[test]
fn labels_exact_alphabet_len() {
    let a = alpha("asdf");
    assert_eq!(a.labels_for(4), vec!["a", "s", "d", "f"]);
}

#[test]
fn labels_alphabet_len_plus_one() {
    let a = alpha("asdf");
    let labels = a.labels_for(5);
    assert_eq!(labels.len(), 5);
    // No collisions, no prefixes-of-each-other.
    assert_no_prefix_collisions(&labels);
}

#[test]
fn labels_alphabet_squared_minus_one() {
    let a = alpha("asdf"); // 4^2 = 16
    let labels = a.labels_for(15);
    assert_eq!(labels.len(), 15);
    assert_no_prefix_collisions(&labels);
    for l in &labels {
        assert!(l.len() <= 2);
    }
}

#[test]
fn labels_alphabet_squared() {
    let a = alpha("asdf"); // 4^2 = 16
    let labels = a.labels_for(16);
    assert_eq!(labels.len(), 16);
    assert_no_prefix_collisions(&labels);
    // All two-char labels at this size.
    for l in &labels {
        assert_eq!(l.len(), 2, "{l}");
    }
}

#[test]
fn labels_alphabet_squared_plus_one() {
    let a = alpha("asdf"); // 4^2 = 16
    let labels = a.labels_for(17);
    assert_eq!(labels.len(), 17);
    assert_no_prefix_collisions(&labels);
}

#[test]
fn labels_unique() {
    let a = alpha(DEFAULT_HINT_ALPHABET);
    let labels = a.labels_for(200);
    let unique: std::collections::HashSet<_> = labels.iter().collect();
    assert_eq!(unique.len(), labels.len(), "duplicates in {labels:?}");
}

#[test]
fn labels_no_prefix_collisions_default() {
    let a = alpha(DEFAULT_HINT_ALPHABET);
    for &n in &[1usize, 2, 16, 17, 100, 256] {
        let labels = a.labels_for(n);
        assert_eq!(labels.len(), n);
        assert_no_prefix_collisions(&labels);
    }
}

#[test]
fn labels_use_alphabet_chars_only() {
    let a = alpha("xyz");
    for label in a.labels_for(20) {
        for c in label.chars() {
            assert!("xyz".contains(c), "stray char {c} in {label}");
        }
    }
}

#[test]
fn labels_minimum_length_grows_with_n() {
    let a = alpha("ab"); // 2-char alphabet — fast growth.
    // 1..=2 → length 1
    for n in 1..=2 {
        for l in a.labels_for(n) {
            assert_eq!(l.len(), 1);
        }
    }
    // 3..=4 → at least one length-2.
    let l3 = a.labels_for(3);
    assert!(l3.iter().any(|s| s.len() >= 2));
    // 5+ → at least one length-3.
    let l5 = a.labels_for(5);
    assert!(l5.iter().any(|s| s.len() >= 3));
}

fn assert_no_prefix_collisions(labels: &[String]) {
    for (i, a) in labels.iter().enumerate() {
        for (j, b) in labels.iter().enumerate() {
            if i == j {
                continue;
            }
            assert!(
                !b.starts_with(a),
                "label {a:?} is a prefix of {b:?} (idx {i} vs {j}): full = {labels:?}",
            );
        }
    }
}

// ---- HintSession --------------------------------------------------

fn mk_hints(labels: &[&str]) -> Vec<Hint> {
    labels
        .iter()
        .enumerate()
        .map(|(i, l)| Hint {
            label: (*l).to_string(),
            element_id: i as u32,
            rect: HintRect {
                x: 0,
                y: 0,
                w: 1,
                h: 1,
            },
            kind: HintKind::Link,
        })
        .collect()
}

#[test]
fn session_filter_narrows_matches() {
    let mut s = HintSession::new(
        alpha(DEFAULT_HINT_ALPHABET),
        mk_hints(&["aa", "ab", "bb"]),
        false,
    );
    let r = s.feed('a');
    assert_eq!(r, HintAction::Filter);
    assert_eq!(s.match_count(), 2);
}

#[test]
fn session_filter_to_one_no_exact_match() {
    let mut s = HintSession::new(alpha(DEFAULT_HINT_ALPHABET), mk_hints(&["aa", "ab"]), false);
    let r = s.feed('a');
    // typed = "a"; both still match; not Click.
    assert_eq!(r, HintAction::Filter);
}

#[test]
fn session_no_match_cancels() {
    let mut s = HintSession::new(alpha(DEFAULT_HINT_ALPHABET), mk_hints(&["aa", "ab"]), false);
    let r = s.feed('z');
    assert_eq!(r, HintAction::Cancel);
    assert_eq!(s.match_count(), 0);
}

#[test]
fn session_exact_match_emits_click() {
    let mut s = HintSession::new(alpha(DEFAULT_HINT_ALPHABET), mk_hints(&["a", "ba"]), false);
    let r = s.feed('a');
    assert_eq!(r, HintAction::Click(0));
}

#[test]
fn session_exact_match_background_emits_open() {
    let mut s = HintSession::new(alpha(DEFAULT_HINT_ALPHABET), mk_hints(&["a", "ba"]), true);
    let r = s.feed('a');
    assert_eq!(r, HintAction::OpenInBackground(0));
}

#[test]
fn session_two_step_commit() {
    let mut s = HintSession::new(
        alpha(DEFAULT_HINT_ALPHABET),
        mk_hints(&["aa", "ab", "ba"]),
        false,
    );
    let r1 = s.feed('a');
    assert_eq!(r1, HintAction::Filter);
    assert_eq!(s.match_count(), 2);
    let r2 = s.feed('b');
    // Now matches {ab} only and label == "ab" == typed.
    assert_eq!(r2, HintAction::Click(1));
}

#[test]
fn session_partial_then_dead_end_cancels() {
    let mut s = HintSession::new(alpha(DEFAULT_HINT_ALPHABET), mk_hints(&["aa", "ab"]), false);
    assert_eq!(s.feed('a'), HintAction::Filter);
    assert_eq!(s.feed('z'), HintAction::Cancel);
}

#[test]
fn session_match_count_starts_full() {
    let s = HintSession::new(
        alpha(DEFAULT_HINT_ALPHABET),
        mk_hints(&["aa", "ab", "bb"]),
        false,
    );
    assert_eq!(s.match_count(), 3);
}

#[test]
fn session_filter_keeps_typed_buffer() {
    let mut s = HintSession::new(alpha(DEFAULT_HINT_ALPHABET), mk_hints(&["asdf"]), false);
    s.feed('a');
    s.feed('s');
    assert_eq!(s.typed, "as");
}

#[test]
fn session_unique_label_after_filter_clicks() {
    // After typing 'a', only "ab" remains; one more 'b' completes.
    let mut s = HintSession::new(
        alpha(DEFAULT_HINT_ALPHABET),
        mk_hints(&["ab", "cd", "ef"]),
        false,
    );
    assert_eq!(s.feed('a'), HintAction::Filter);
    assert_eq!(s.feed('b'), HintAction::Click(0));
}

#[test]
fn session_esc_cancels_anytime() {
    let mut s = HintSession::new(alpha("asdf"), mk_hints(&["a", "b"]), false);
    assert_eq!(s.esc(), HintAction::Cancel);
    // Re-issuing esc after a feed still returns Cancel.
    s.feed('a');
    assert_eq!(s.esc(), HintAction::Cancel);
}

#[test]
fn session_backspace_empty_cancels() {
    let mut s = HintSession::new(alpha("asdf"), mk_hints(&["aa", "bb"]), false);
    assert_eq!(s.backspace(), HintAction::Cancel);
}

#[test]
fn session_backspace_pops_typed() {
    let mut s = HintSession::new(alpha("asdf"), mk_hints(&["aa", "ab", "bb"]), false);
    s.feed('a');
    assert_eq!(s.match_count(), 2);
    let r = s.backspace();
    assert_eq!(r, HintAction::Filter);
    assert_eq!(s.typed, "");
    assert_eq!(s.match_count(), 3);
}

#[test]
fn session_backspace_recovers_dropped_matches() {
    // Type 'a' then 'z' (Cancel) — backspace re-widens to all 'a*'.
    let mut s = HintSession::new(alpha("asdf"), mk_hints(&["ab", "ac", "bb"]), false);
    s.feed('a');
    // Don't let `feed` set zero matches before we test backspace
    // recovery — type a still-valid char.
    s.feed('b');
    // Now matches just "ab".
    let r = s.backspace();
    assert_eq!(r, HintAction::Filter);
    assert_eq!(s.typed, "a");
    assert_eq!(s.match_count(), 2);
}

// ---- console events -------------------------------------------------

fn decode(payload: &str) -> Result<HintConsoleEvent, String> {
    let v: serde_json::Value = serde_json::from_str(payload).map_err(|e| e.to_string())?;
    match v["kind"].as_str() {
        Some("ready") => Ok(HintConsoleEvent::Ready {
            hints: Vec::new(),
            alphabet: v["alphabet"].as_str().unwrap_or_default().to_string(),
        }),
        Some("error") => Ok(HintConsoleEvent::Error {
            message: v["message"].as_str().unwrap_or_default().to_string(),
        }),
        _ => Err("unknown kind".to_string()),
    }
}

fn parse_console_event(line: &str) -> Option<Result<HintConsoleEvent, String>> {
    console_payload(line).map(|p| decode(&p))
}

#[test]
fn parse_console_event_ignores_non_sentinel() {
    assert!(parse_console_event("hello world").is_none());
}

#[test]
fn parse_console_event_ready() {
    let line = r#"__buffr_hint__:{"kind":"ready","hints":[],"alphabet":"asdf"}"#;
    let ev = parse_console_event(line).unwrap().unwrap();
    match ev {
        HintConsoleEvent::Ready { alphabet, hints } => {
            assert_eq!(alphabet, "asdf");
            assert!(hints.is_empty());
        }
        _ => panic!("wrong variant"),
    }
}

#[test]
fn parse_console_event_error() {
    let line = r#"__buffr_hint__:{"kind":"error","message":"boom"}"#;
    let ev = parse_console_event(line).unwrap().unwrap();
    match ev {
        HintConsoleEvent::Error { message } => assert_eq!(message, "boom"),
        _ => panic!("wrong variant"),
    }
}

#[test]
fn parse_console_event_malformed_returns_inner_err() {
    let line = "__buffr_hint__:not json";
    let parsed = parse_console_event(line).unwrap();
    assert!(parsed.is_err());
}

#[test]
fn hint_sentinel_is_found_anywhere_in_the_line() {
    let line = "%cINFO color: red __buffr_hint__:{} __buffr_hint__:tail";
    assert_eq!(console_payload(line).unwrap(), "{} __buffr_hint__:tail");
}

#[test]
fn hint_mailbox_keeps_the_latest_event() {
    let mut sink = new_hint_event_sink();
    assert!(take_hint_event(&mut sink).is_none());
    store_hint_event(&mut sink, HintConsoleEvent::Error { message: "a".into() });
    store_hint_event(&mut sink, HintConsoleEvent::Error { message: "b".into() });
    assert_eq!(
        take_hint_event(&mut sink),
        Some(HintConsoleEvent::Error { message: "b".into() })
    );
    assert!(take_hint_event(&mut sink).is_none());
}

// ---- build_inject_script ----------------------------------------

#[test]
fn inject_script_substitutes_placeholders() {
    let labels = vec!["a".to_string(), "s".to_string()];
    let s = build_inject_script("asdf", &labels, "a, button");
    // Sanity: placeholders are gone.
    assert!(!s.contains("__ALPHABET__"));
    assert!(!s.contains("__LABELS__"));
    assert!(!s.contains("__SELECTORS__"));
    // The labels array literal lands inline.
    assert!(s.contains("[\"a\",\"s\"]"));
}

#[test]
fn inject_script_escapes_quotes_and_backslashes() {
    // Alphabet with chars that must be JSON-escaped to be safe to
    // splice into a JS string. Single quote tests the
    // `'-inside-single-quoted-string` path; backslash tests JSON's
    // own escape pass-through.
    let labels = vec!["a".to_string()];
    let s = build_inject_script("a'b\\c", &labels, "div");
    // No raw single-quote inside the alphabet placement: must be
    // escaped to `\'`.
    // Find the literal alphabet tail: search for `'a` then check
    // the next two bytes don't break the string.
    assert!(s.contains("\\'b"), "single-quote not escaped");
    assert!(s.contains("\\\\c"), "backslash not escaped (json):\n{s}");
}

#[test]
fn inject_script_handles_unicode_alphabet() {
    let labels = vec!["α".to_string()];
    let s = build_inject_script("αβγδ", &labels, "div");
    // serde_json escapes non-ASCII into \uXXXX by default; verify
    // the output is valid ASCII so it can't break the surrounding
    // JS string literal regardless of its quote style.
    assert!(s.is_ascii(), "non-ASCII in injected JS:\n{s}");
}

#[test]
fn inject_script_writes_utf16_escapes() {
    let labels = vec!["α\"".to_string()];
    let s = build_inject_script("é\u{1f600}\t", &labels, DEFAULT_HINT_SELECTORS);
    assert!(s.contains("'\\u00e9\\ud83d\\ude00\\t'"));
    assert!(s.contains("[\"\\u03b1\\\"\"]"));
    assert!(s.contains("[tabindex]:not([tabindex=\\'-1\\'])"));
    assert!(s.is_ascii());
}

#[test]
fn hint_template_is_ascii_and_uses_the_overlay_class() {
    assert!(HINT_JS.is_ascii());
    assert!(HINT_JS.contains(HINT_OVERLAY_CLASS));
    assert!(HINT_JS.contains(&HINT_OVERLAY_Z_INDEX.to_string()));
}

#[test]
fn short_labels_go_to_the_first_targets() {
    let a = alpha("asdf");
    assert_eq!(a.labels_for(5), vec!["s", "d", "f", "aa", "as"]);
    let labels = a.labels_for(17);
    for pair in labels.windows(2) {
        assert!(pair[0].len() <= pair[1].len(), "{labels:?}");
    }
    assert_eq!(labels[0], "as");
    assert_eq!(labels[16], "aas");
}

#[test]
fn label_sets_are_exact_for_every_small_count() {
    for alphabet in ["ab", "xyz", "asdf"] {
        let a = alpha(alphabet);
        for n in 0..200usize {
            let labels = a.labels_for(n);
            assert_eq!(labels.len(), n);
            assert_no_prefix_collisions(&labels);
        }
    }
}

#[test]
fn duplicate_is_reported_before_size() {
    assert_eq!(HintAlphabet::from_str("aa"), Err(HintError::DuplicateChar('a')));
    assert_eq!(HintAlphabet::from_str("abcb a"), Err(HintError::DuplicateChar('b')));
}

#[test]
fn alphabet_clone_and_chars_agree() {
    let a = alpha("a b");
    assert_eq!(a.clone(), a);
    assert_eq!(a.chars(), &['a', ' ', 'b']);
    assert!(!a.is_empty());
}

#[test]
fn typing_any_minted_label_commits_on_its_last_letter() {
    let a = alpha("ab");
    let labels = a.labels_for(7);
    let refs: Vec<&str> = labels.iter().map(|s| s.as_str()).collect();
    for (i, label) in labels.iter().enumerate() {
        let mut s = HintSession::new(a.clone(), mk_hints(&refs), false);
        let n = label.chars().count();
        for (k, c) in label.chars().enumerate() {
            let expected = if k + 1 == n {
                HintAction::Click(i as u32)
            } else {
                HintAction::Filter
            };
            assert_eq!(s.feed(c), expected);
        }
    }
}

#[test]
fn backspace_after_a_dead_end_restores_the_candidates() {
    let mut s = HintSession::new(alpha("asdf"), mk_hints(&["ab", "ac", "bb"]), false);
    s.feed('a');
    let before = s.matches.clone();
    assert_eq!(s.feed('z'), HintAction::Cancel);
    assert_eq!(s.backspace(), HintAction::Filter);
    assert_eq!(s.matches, before);
    assert_eq!(s.typed, "a");
}

#[test]
fn labels_for_any_count() {
    let a = alpha("ab");
    let labels = a.labels_for(40_000);
    assert_eq!(labels.len(), 40_000);
    let distinct: std::collections::HashSet<&String> = labels.iter().collect();
    assert_eq!(distinct.len(), 40_000);
    assert_eq!(labels[0].len(), 15);
    assert_eq!(labels[39_999].len(), 16);
}

#[test]
fn double_quotes_are_escaped_inside_the_script() {
    let s = build_inject_script("a\"b", &[], "[x=\"y\"]");
    assert!(s.contains("'a\\u0022b'"));
    assert!(s.contains("'[x=\\u0022y\\u0022]'"));
    assert!(s.is_ascii());
}
