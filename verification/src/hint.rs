//! Hint mode: overlay labels that let a link be followed by typing letters.
//!
//! The renderer reports the hint targets of a page in one console line that
//! starts with [`HINT_CONSOLE_SENTINEL`]. A [`HintSession`] owns the reported
//! list and the letters typed so far, and answers every keystroke with a
//! [`HintAction`] for the host to perform. Labels come from a
//! [`HintAlphabet`]; their numeration and its laws live in [`crate::label`].
use crate::label::{
    extended, label, label_set, leaves, lemma_ceil_div, lemma_child, valid_alphabet,
};
use crate::js::{
    array_literal, escaped, json_string_array, json_string_inner, law_array_is_ascii,
    law_escaped_is_ascii,
};
use crate::scripts::{ascii, lemma_hint_script_is_ascii, HINT_JS};
use crate::text::{
    after_first, find_after, from_chars, replace_all, replaced, same_text, slice_string,
    starts_with, to_chars, views,
};
use vstd::prelude::*;

verus! {

/// Prefix of every hint-mode console line.
pub const HINT_CONSOLE_SENTINEL: &'static str = "__buffr_hint__:";

/// CSS class of every injected hint overlay.
pub const HINT_OVERLAY_CLASS: &'static str = "buffr-hint-overlay";

/// `z-index` of the overlays: the maximum, so that pages cannot cover them.
pub const HINT_OVERLAY_Z_INDEX: i64 = 2_147_483_647;

/// Selectors of the hint targets when the host passes none: links, buttons,
/// form fields, and anything with an interactive role or a tab index.
pub const DEFAULT_HINT_SELECTORS: &'static str =
    "a, button, input, select, textarea, [role=button], [role=link], [role=checkbox], [role=menuitem], [tabindex]:not([tabindex='-1'])";

/// Default alphabet: the home row and the upper row.
pub const DEFAULT_HINT_ALPHABET: &'static str = "asdfghjkl;weruio";

/// Errors building a [`HintAlphabet`].
#[derive(Debug, PartialEq, Eq)]
pub enum HintError {
    /// Fewer than two characters.
    AlphabetTooSmall,
    /// A character that occurs twice.
    DuplicateChar(char),
}

/// The first character of `s` that repeats an earlier one.
pub open spec fn first_repeat(s: Seq<char>) -> Option<char>
    decreases s.len(),
{
    if s.len() == 0 {
        None
    } else {
        match first_repeat(s.drop_last()) {
            Some(c) => Some(c),
            None => if s.drop_last().contains(s.last()) {
                Some(s.last())
            } else {
                None
            },
        }
    }
}

/// Ordered list of distinct characters used to mint hint labels.
#[derive(Debug, PartialEq, Eq)]
pub struct HintAlphabet(Vec<char>);

impl View for HintAlphabet {
    type V = Seq<char>;

    closed spec fn view(&self) -> Seq<char> {
        self.0@
    }
}

impl Clone for HintAlphabet {
    fn clone(&self) -> (r: Self)
        ensures
            r@ == self@,
    {
        proof {
            use_type_invariant(self);
        }
        HintAlphabet(to_owned_chars(self.0.as_slice()))
    }
}

/// A copy of `chars`.
fn to_owned_chars(chars: &[char]) -> (r: Vec<char>)
    ensures
        r@ == chars@,
{
    let mut out: Vec<char> = Vec::new();
    for i in 0..chars.len()
        invariant
            out@ == chars@.take(i as int),
    {
        out.push(chars[i]);
    }
    assert(chars@.take(chars@.len() as int) == chars@);
    out
}

impl HintAlphabet {
    #[verifier::type_invariant]
    spec fn wf(self) -> bool {
        valid_alphabet(self.0@)
    }

    /// Build an alphabet from a string; its order is the order in which
    /// labels are minted. White space is kept like any other character.
    pub fn from_str(chars: &str) -> (r: Result<Self, HintError>)
        ensures
            match r {
                Ok(a) => first_repeat(chars@) is None && chars@.len() >= 2 && a@ == chars@,
                Err(HintError::DuplicateChar(c)) => first_repeat(chars@) == Some(c),
                Err(HintError::AlphabetTooSmall) => first_repeat(chars@) is None && chars@.len() < 2,
            },
    {
        let text = to_chars(chars);
        let mut i: usize = 0;
        assert(text@.take(0).len() == 0);
        while i < text.len()
            invariant
                i <= text@.len(),
                text@ == chars@,
                first_repeat(text@.take(i as int)) is None,
                text@.take(i as int).no_duplicates(),
            decreases text@.len() - i,
        {
            let c = text[i];
            let ghost next = text@.take(i + 1);
            assert(next.drop_last() == text@.take(i as int));
            assert(next.last() == c);
            let mut j: usize = 0;
            while j < i
                invariant
                    j <= i < text@.len(),
                    text@ == chars@,
                    next == text@.take(i + 1),
                    next.drop_last() == text@.take(i as int),
                    next.last() == c,
                    first_repeat(text@.take(i as int)) is None,
                    forall|k: int| 0 <= k < j ==> text@[k] != c,
                decreases i - j,
            {
                if text[j] == c {
                    proof {
                        assert(text@.take(i as int)[j as int] == c);
                        assert(first_repeat(next) == Some(c));
                        lemma_first_repeat_stays(text@, i + 1);
                    }
                    return Err(HintError::DuplicateChar(c));
                }
                j += 1;
            }
            assert(!text@.take(i as int).contains(c));
            i += 1;
        }
        assert(text@.take(text@.len() as int) == text@);
        if text.len() < 2 {
            return Err(HintError::AlphabetTooSmall);
        }
        Ok(HintAlphabet(text))
    }

    /// Number of distinct characters.
    pub fn len(&self) -> (r: usize)
        ensures
            r == self@.len(),
    {
        self.0.len()
    }

    /// Whether the alphabet is empty, which it never is.
    pub fn is_empty(&self) -> (r: bool)
        ensures
            r == (self@.len() == 0),
            !r,
    {
        proof {
            use_type_invariant(self);
        }
        self.0.len() == 0
    }

    /// The characters in minting order.
    pub fn chars(&self) -> (r: &[char])
        ensures
            r@ == self@,
            valid_alphabet(r@),
    {
        proof {
            use_type_invariant(self);
        }
        self.0.as_slice()
    }

    /// The alphabet as a string, the inverse of [`HintAlphabet::from_str`].
    pub fn as_string(&self) -> (r: String)
        ensures
            r@ == self@,
    {
        from_chars(self.0.as_slice())
    }

    /// Generate exactly `count` labels, shortest first. No label repeats or
    /// begins another one.
    pub fn labels_for(&self, count: usize) -> (r: Vec<String>)
        ensures
            valid_alphabet(self@),
            views(r@) == label_set(self@, count as nat),
            r@.len() == count,
    {
        let width: usize = self.0.len();
        proof {
            use_type_invariant(self);
            assert(width == self@.len());
        }
        let ghost alpha = self@;
        let ghost a = self@.len();
        if count <= width {
            let mut out: Vec<String> = Vec::new();
            let mut i: usize = 0;
            while i < count
                invariant
                    i <= count <= self.0@.len(),
                    self.0@ == alpha,
                    alpha.len() == a,
                    out@.len() == i,
                    forall|k: int| 0 <= k < i ==> (#[trigger] out@[k])@ == label(alpha, (1 + k) as nat),
                decreases count - i,
            {
                let mut word = String::new();
                word.push(self.0[i]);
                proof {
                    assert(a * 0 == 0) by (nonlinear_arith);
                    lemma_child(a, 0, i as int);
                    reveal_with_fuel(label, 2);
                    assert(word@ == label(alpha, (1 + i) as nat));
                }
                out.push(word);
                i += 1;
            }
            assert(views(out@) == label_set(alpha, count as nat));
            return out;
        }
        let mut queue: Vec<String> = Vec::new();
        queue.push(String::new());
        let mut offset: usize = 0;
        proof {
            assert(0 * a == 0) by (nonlinear_arith);
            assert(0 * (a - 1) == 0) by (nonlinear_arith);
        }
        while queue.len() - offset < count
            invariant
                self.0@ == alpha,
                alpha.len() == a,
                a >= 2,
                count > a,
                queue@.len() == 1 + offset * a,
                offset < queue@.len(),
                queue@.len() - offset == leaves(a, offset as int),
                offset > 0 ==> leaves(a, offset - 1) < count,
                forall|k: int| 0 <= k < queue@.len() ==> (#[trigger] queue@[k])@ == label(alpha, k as nat),
            decreases count + a - leaves(a, offset as int),
        {
            let ghost before = queue@.len();
            let mut j: usize = 0;
            while j < self.0.len()
                invariant
                    self.0@ == alpha,
                    alpha.len() == a,
                    a >= 2,
                    j <= a,
                    before == 1 + offset * a,
                    offset < before,
                    queue@.len() == before + j,
                    forall|k: int|
                        0 <= k < queue@.len() ==> (#[trigger] queue@[k])@ == label(alpha, k as nat),
                decreases a - j,
            {
                let mut word = queue[offset].clone();
                word.push(self.0[j]);
                proof {
                    lemma_child(a, offset as nat, j as int);
                    assert(offset * a == a * offset) by (nonlinear_arith);
                    assert(word@ == label(alpha, (before + j) as nat));
                }
                queue.push(word);
                j += 1;
            }
            proof {
                assert((offset + 1) * a == offset * a + a) by (nonlinear_arith);
                assert((offset + 1) * (a - 1) == offset * (a - 1) + a - 1) by (nonlinear_arith);
                assert((offset + 1) * a > offset) by (nonlinear_arith)
                    requires
                        a >= 2,
                        offset >= 0,
                ;
            }
            offset += 1;
        }
        let n: usize = queue.len();
        proof {
            lemma_extended(a, count as nat, offset as int);
        }
        let mut out: Vec<String> = Vec::new();
        let mut i: usize = 0;
        while i < count
            invariant
                i <= count,
                offset + count <= n == queue@.len(),
                out@.len() == i,
                forall|k: int| 0 <= k < queue@.len() ==> (#[trigger] queue@[k])@ == label(alpha, k as nat),
                forall|k: int| 0 <= k < i ==> (#[trigger] out@[k])@ == label(alpha, (offset + k) as nat),
            decreases count - i,
        {
            let word = queue[offset + i].clone();
            assert(word@ == label(alpha, (offset + i) as nat));
            out.push(word);
            i += 1;
        }
        assert(views(out@) == label_set(alpha, count as nat));
        out
    }
}

/// A repeat found in a prefix of `s` is the first repeat of `s`.
proof fn lemma_first_repeat_stays(s: Seq<char>, n: int)
    requires
        0 <= n <= s.len(),
        first_repeat(s.take(n)) is Some,
    ensures
        first_repeat(s) == first_repeat(s.take(n)),
    decreases s.len() - n,
{
    if n == s.len() {
        assert(s.take(n) == s);
    } else {
        assert(s.take(n + 1).drop_last() == s.take(n));
        lemma_first_repeat_stays(s, n + 1);
    }
}

/// A text is an alphabet if and only if it has two characters and none
/// repeats; so the text of an alphabet builds that alphabet again.
pub proof fn law_alphabet_reads_back(s: Seq<char>)
    ensures
        valid_alphabet(s) <==> first_repeat(s) is None && s.len() >= 2,
{
    lemma_no_repeat(s);
}

proof fn lemma_no_repeat(s: Seq<char>)
    ensures
        s.no_duplicates() <==> first_repeat(s) is None,
    decreases s.len(),
{
    if s.len() > 0 {
        let front = s.drop_last();
        lemma_no_repeat(front);
        if s.no_duplicates() {
            assert(front.no_duplicates()) by {
                assert forall|i: int, j: int|
                    0 <= i < front.len() && 0 <= j < front.len() && i != j implies front[i]
                    != front[j] by {
                    assert(s[i] != s[j]);
                }
            }
            if front.contains(s.last()) {
                let k = choose|k: int| 0 <= k < front.len() && front[k] == s.last();
                assert(s[k] == s[s.len() - 1]);
            }
        } else {
            let (i, j) = choose|i: int, j: int|
                0 <= i < s.len() && 0 <= j < s.len() && i != j && s[i] == s[j];
            let low = if i < j {
                i
            } else {
                j
            };
            let high = if i < j {
                j
            } else {
                i
            };
            assert(front[low] == s[low]);
            if high < front.len() {
                assert(front[high] == s[high]);
                assert(!front.no_duplicates());
            } else {
                assert(front.contains(s.last()));
            }
        }
    }
}

/// The number of extended words is the first that gives room for `count`
/// labels.
proof fn lemma_extended(a: nat, count: nat, k: int)
    requires
        a >= 2,
        count > a,
        k >= 0,
        k > 0 ==> leaves(a, k - 1) < count,
        leaves(a, k) >= count,
    ensures
        k == extended(a, count),
{
    lemma_ceil_div(count - 1, a - 1, k);
    lemma_ceil_div(count - 1, a - 1, k - 1);
    if k == 0 {
        assert(0 * (a - 1) == 0) by (nonlinear_arith);
    }
}

/// Coarse classification of a hint target.
#[derive(Debug, Clone, Copy, PartialEq, Eq, Structural)]
pub enum HintKind {
    Link,
    Button,
    Input,
    Form,
    Other,
}

/// Bounding rectangle of a hint target in CSS pixels, relative to the
/// viewport.
#[derive(Debug, Clone, Copy, PartialEq, Eq, Structural)]
pub struct HintRect {
    pub x: i32,
    pub y: i32,
    pub w: i32,
    pub h: i32,
}

/// One hint target as reported by the renderer.
#[derive(Debug, Clone, PartialEq, Eq)]
pub struct Hint {
    /// Assigned label.
    pub label: String,
    /// Renderer-assigned id, sent back on commit.
    pub element_id: u32,
    /// Bounding box at the moment of injection.
    pub rect: HintRect,
    pub kind: HintKind,
}

/// Mathematical value of a [`Hint`].
#[verifier::ext_equal]
pub struct HintState {
    pub label: Seq<char>,
    pub element_id: u32,
    pub rect: HintRect,
    pub kind: HintKind,
}

impl View for Hint {
    type V = HintState;

    open spec fn view(&self) -> HintState {
        HintState {
            label: self.label@,
            element_id: self.element_id,
            rect: self.rect,
            kind: self.kind,
        }
    }
}

/// Values of a list of hints.
pub open spec fn hint_views(hints: Seq<Hint>) -> Seq<HintState> {
    Seq::new(hints.len(), |i: int| hints[i]@)
}

/// Another name for [`Hint`].
pub type HintLabel = Hint;

/// What the host has to do after a keystroke in hint mode.
#[derive(Debug, Clone, Copy, PartialEq, Eq, Structural)]
pub enum HintAction {
    /// Dim the overlays that no longer match.
    Filter,
    /// Click the target and leave hint mode.
    Click(u32),
    /// Open the target in the background and leave hint mode.
    OpenInBackground(u32),
    /// Leave hint mode.
    Cancel,
}

/// Hint-mode state: the reported targets, the letters typed so far and the
/// targets whose label starts with them.
#[derive(Debug, Clone)]
pub struct HintSession {
    pub alphabet: HintAlphabet,
    pub hints: Vec<Hint>,
    pub typed: String,
    pub matches: Vec<usize>,
    /// Whether a commit opens the target in the background.
    pub background: bool,
}

/// Mathematical state of a [`HintSession`].
#[verifier::ext_equal]
pub struct SessionState {
    pub alphabet: Seq<char>,
    pub hints: Seq<HintState>,
    pub typed: Seq<char>,
    pub matches: Seq<usize>,
    pub background: bool,
}

impl View for HintSession {
    type V = SessionState;

    open spec fn view(&self) -> SessionState {
        SessionState {
            alphabet: self.alphabet@,
            hints: hint_views(self.hints@),
            typed: self.typed@,
            matches: self.matches@,
            background: self.background,
        }
    }
}

/// Whether hint number `i` exists and its label starts with `typed`.
pub open spec fn label_matches(hints: Seq<HintState>, typed: Seq<char>, i: usize) -> bool {
    i < hints.len() && typed.is_prefix_of(hints[i as int].label)
}

/// The numbers `0..n`.
pub open spec fn all_indices(n: nat) -> Seq<usize> {
    Seq::new(n, |i: int| i as usize)
}

/// The members of `from` whose hint matches `typed`, in order.
pub open spec fn narrowed(hints: Seq<HintState>, typed: Seq<char>, from: Seq<usize>) -> Seq<usize> {
    from.filter(|i: usize| label_matches(hints, typed, i))
}

impl SessionState {
    /// The candidate set is exactly the set of matching hints.
    pub open spec fn consistent(self) -> bool {
        &&& self.hints.len() <= usize::MAX
        &&& self.matches == narrowed(self.hints, self.typed, all_indices(self.hints.len()))
    }

    /// The state of a new session.
    pub open spec fn started(alphabet: Seq<char>, hints: Seq<HintState>, background: bool) -> Self {
        SessionState {
            alphabet,
            hints,
            typed: Seq::empty(),
            matches: all_indices(hints.len()),
            background,
        }
    }

    /// The state after one typed character.
    pub open spec fn fed(self, ch: char) -> Self {
        let typed = self.typed.push(ch);
        SessionState { typed, matches: narrowed(self.hints, typed, self.matches), ..self }
    }

    /// The state after several typed characters.
    pub open spec fn fed_all(self, word: Seq<char>) -> Self
        decreases word.len(),
    {
        if word.len() == 0 {
            self
        } else {
            self.fed_all(word.drop_last()).fed(word.last())
        }
    }

    /// What the current candidates ask for.
    pub open spec fn action(self) -> HintAction {
        if self.matches.len() == 0 {
            HintAction::Cancel
        } else if self.matches.len() == 1 && self.matches[0] < self.hints.len()
            && self.hints[self.matches[0] as int].label == self.typed {
            self.commit(self.matches[0] as int)
        } else {
            HintAction::Filter
        }
    }

    /// The action that commits to hint number `i`.
    pub open spec fn commit(self, i: int) -> HintAction {
        if self.background {
            HintAction::OpenInBackground(self.hints[i].element_id)
        } else {
            HintAction::Click(self.hints[i].element_id)
        }
    }

    /// The state after a backspace.
    pub open spec fn backspaced(self) -> Self {
        if self.typed.len() == 0 {
            self
        } else {
            let typed = self.typed.drop_last();
            SessionState {
                typed,
                matches: narrowed(self.hints, typed, all_indices(self.hints.len())),
                ..self
            }
        }
    }
}

impl HintSession {
    /// Build a session from the reported hints: everything matches.
    pub fn new(alphabet: HintAlphabet, hints: Vec<Hint>, background: bool) -> (r: Self)
        ensures
            r@ == SessionState::started(alphabet@, hint_views(hints@), background),
            r@.consistent(),
    {
        let mut matches: Vec<usize> = Vec::new();
        let n: usize = hints.len();
        let mut i: usize = 0;
        while i < n
            invariant
                i <= n,
                matches@ == all_indices(i as nat),
            decreases n - i,
        {
            matches.push(i);
            i += 1;
        }
        proof {
            assert(n == hints@.len());
            lemma_all_match(hint_views(hints@), n as nat);
        }
        HintSession { alphabet, hints, typed: String::new(), matches, background }
    }

    /// Whether this session and `other` are in the same state.
    pub fn same_as(&self, other: &HintSession) -> (r: bool)
        ensures
            r == (self@ == other@),
    {
        let alphabet = same_chars(self.alphabet.chars(), other.alphabet.chars());
        let hints = same_hints(&self.hints, &other.hints);
        let typed = same_text(self.typed.as_str(), other.typed.as_str());
        let matches = same_indices(&self.matches, &other.matches);
        proof {
            if alphabet && hints && typed && matches && self.background == other.background {
                assert(self@ =~= other@);
            }
        }
        alphabet && hints && typed && matches && self.background == other.background
    }

    /// Number of hint targets that match what was typed.
    pub fn match_count(&self) -> (r: usize)
        ensures
            r == self@.matches.len(),
    {
        self.matches.len()
    }

    /// Feed one typed character. A single remaining candidate whose label is
    /// the typed text commits, no candidate cancels, anything else filters.
    pub fn feed(&mut self, ch: char) -> (r: HintAction)
        ensures
            final(self)@ == old(self)@.fed(ch),
            r == final(self)@.action(),
            match r {
                HintAction::Cancel => final(self)@.matches.len() == 0,
                HintAction::Filter => final(self)@.matches.len() > 1 || (final(self)@.matches.len()
                    == 1 && final(self)@.hints[final(self)@.matches[0] as int].label != final(self)@.typed),
                HintAction::OpenInBackground(id) => {
                    &&& final(self)@.matches.len() == 1
                    &&& final(self)@.hints[final(self)@.matches[0] as int].label == final(self)@.typed
                    &&& final(self)@.hints[final(self)@.matches[0] as int].element_id == id
                    &&& old(self).background
                },
                HintAction::Click(id) => {
                    &&& final(self)@.matches.len() == 1
                    &&& final(self)@.hints[final(self)@.matches[0] as int].label == final(self)@.typed
                    &&& final(self)@.hints[final(self)@.matches[0] as int].element_id == id
                    &&& !old(self).background
                },
            },
            old(self)@.consistent() ==> final(self)@.consistent(),
    {
        proof {
            if self@.consistent() {
                law_feed_keeps_consistency(self@, ch);
            }
        }
        let ghost start = self@;
        self.typed.push(ch);
        let ghost pred = |i: usize| label_matches(hint_views(self.hints@), self.typed@, i);
        let mut kept: Vec<usize> = Vec::new();
        let mut k: usize = 0;
        while k < self.matches.len()
            invariant
                k <= self.matches@.len(),
                pred == |i: usize| label_matches(hint_views(self.hints@), self.typed@, i),
                kept@ == self.matches@.take(k as int).filter(pred),
            decreases self.matches@.len() - k,
        {
            let i = self.matches[k];
            proof {
                reveal(Seq::filter);
                assert(self.matches@.take(k + 1).drop_last() == self.matches@.take(k as int));
            }
            if i < self.hints.len() && starts_with(self.hints[i].label.as_str(), self.typed.as_str()) {
                kept.push(i);
            }
            k += 1;
        }
        assert(self.matches@.take(self.matches@.len() as int) == self.matches@);
        self.matches = kept;
        assert(self@ =~= start.fed(ch));
        proof {
            if self@.matches.len() > 0 {
                law_fed_candidates_exist(start, ch, 0);
            }
        }
        if self.matches.len() == 0 {
            return HintAction::Cancel;
        }
        if self.matches.len() == 1 {
            let only = self.matches[0];
            if only < self.hints.len() && same_text(
                self.hints[only].label.as_str(),
                self.typed.as_str(),
            ) {
                let id: u32 = self.hints[only].element_id;
                return if self.background {
                    HintAction::OpenInBackground(id)
                } else {
                    HintAction::Click(id)
                };
            }
        }
        HintAction::Filter
    }

    /// Escape always cancels, whatever was typed.
    pub fn esc(&mut self) -> (r: HintAction)
        ensures
            r == HintAction::Cancel,
            *final(self) == *old(self),
    {
        HintAction::Cancel
    }

    /// Drop the last typed character and find the candidates again. With
    /// nothing typed the session is cancelled and left alone.
    pub fn backspace(&mut self) -> (r: HintAction)
        ensures
            final(self)@ == old(self)@.backspaced(),
            r == if old(self)@.typed.len() == 0 {
                HintAction::Cancel
            } else {
                HintAction::Filter
            },
    {
        let text = to_chars(self.typed.as_str());
        if text.len() == 0 {
            return HintAction::Cancel;
        }
        let ghost start = self@;
        self.typed = slice_string(text.as_slice(), 0, text.len() - 1);
        assert(self.typed@ == start.typed.drop_last());
        let ghost pred = |i: usize| label_matches(hint_views(self.hints@), self.typed@, i);
        let mut kept: Vec<usize> = Vec::new();
        let n: usize = self.hints.len();
        let mut i: usize = 0;
        reveal(Seq::filter);
        while i < n
            invariant
                i <= n == self.hints@.len(),
                pred == |i: usize| label_matches(hint_views(self.hints@), self.typed@, i),
                kept@ == all_indices(i as nat).filter(pred),
            decreases n - i,
        {
            proof {
                reveal(Seq::filter);
                assert(all_indices((i + 1) as nat).drop_last() == all_indices(i as nat));
            }
            if starts_with(self.hints[i].label.as_str(), self.typed.as_str()) {
                kept.push(i);
            }
            i += 1;
        }
        self.matches = kept;
        assert(self@ =~= start.backspaced());
        HintAction::Filter
    }
}

/// Whether two texts are the same.
fn same_chars(x: &[char], y: &[char]) -> (r: bool)
    ensures
        r == (x@ == y@),
{
    if x.len() != y.len() {
        return false;
    }
    let mut i: usize = 0;
    while i < x.len()
        invariant
            i <= x@.len() == y@.len(),
            forall|k: int| 0 <= k < i ==> x@[k] == y@[k],
        decreases x@.len() - i,
    {
        if x[i] != y[i] {
            return false;
        }
        i += 1;
    }
    assert(x@ =~= y@);
    true
}

/// Whether two lists of indices are the same.
fn same_indices(x: &Vec<usize>, y: &Vec<usize>) -> (r: bool)
    ensures
        r == (x@ == y@),
{
    if x.len() != y.len() {
        return false;
    }
    let mut i: usize = 0;
    while i < x.len()
        invariant
            i <= x@.len() == y@.len(),
            forall|k: int| 0 <= k < i ==> x@[k] == y@[k],
        decreases x@.len() - i,
    {
        if x[i] != y[i] {
            return false;
        }
        i += 1;
    }
    assert(x@ =~= y@);
    true
}

/// Whether two lists of hints have the same values.
fn same_hints(x: &Vec<Hint>, y: &Vec<Hint>) -> (r: bool)
    ensures
        r == (hint_views(x@) == hint_views(y@)),
{
    if x.len() != y.len() {
        assert(hint_views(x@).len() != hint_views(y@).len());
        return false;
    }
    let mut i: usize = 0;
    while i < x.len()
        invariant
            i <= x@.len() == y@.len(),
            forall|k: int| 0 <= k < i ==> (#[trigger] x@[k])@ == y@[k]@,
        decreases x@.len() - i,
    {
        let same = same_text(x[i].label.as_str(), y[i].label.as_str()) && x[i].element_id
            == y[i].element_id && x[i].rect == y[i].rect && x[i].kind == y[i].kind;
        if !same {
            assert(hint_views(x@)[i as int] != hint_views(y@)[i as int]);
            return false;
        }
        assert(x@[i as int]@ =~= y@[i as int]@);
        i += 1;
    }
    assert(hint_views(x@) =~= hint_views(y@));
    true
}

/// Every hint matches the empty text.
proof fn lemma_all_match(hints: Seq<HintState>, n: nat)
    requires
        n <= hints.len() <= usize::MAX,
    ensures
        narrowed(hints, Seq::empty(), all_indices(n)) == all_indices(n),
    decreases n,
{
    reveal(Seq::filter);
    if n > 0 {
        let m = (n - 1) as nat;
        lemma_all_match(hints, m);
        assert(all_indices(n).drop_last() == all_indices(m));
        let word = hints[m as int].label;
        assert(word.subrange(0, 0) == Seq::<char>::empty());
        assert(label_matches(hints, Seq::empty(), all_indices(n).last()));
        assert(all_indices(n) == all_indices(m).push(m as usize));
    }
}

/// Narrowing by a longer text after a shorter one is narrowing by the longer.
proof fn lemma_narrow_twice(hints: Seq<HintState>, short: Seq<char>, long: Seq<char>, from: Seq<usize>)
    requires
        short.is_prefix_of(long),
    ensures
        narrowed(hints, long, narrowed(hints, short, from)) == narrowed(hints, long, from),
    decreases from.len(),
{
    reveal(Seq::filter);
    if from.len() > 0 {
        let rest = from.drop_last();
        let i = from.last();
        lemma_narrow_twice(hints, short, long, rest);
        if label_matches(hints, long, i) {
            let word = hints[i as int].label;
            assert(word.subrange(0, short.len() as int) == long.subrange(0, short.len() as int)) by {
                assert(word.subrange(0, long.len() as int) == long);
                assert(word.subrange(0, long.len() as int).subrange(0, short.len() as int)
                    == word.subrange(0, short.len() as int));
            }
            assert(label_matches(hints, short, i));
        }
        let inner = narrowed(hints, short, rest);
        if label_matches(hints, short, i) {
            assert(narrowed(hints, short, from) == inner.push(i));
            assert(inner.push(i).drop_last() == inner);
        }
    }
}

/// A new session offers every target: nothing was typed yet.
pub proof fn law_started_is_consistent(alphabet: Seq<char>, hints: Seq<HintState>, background: bool)
    requires
        hints.len() <= usize::MAX,
    ensures
        SessionState::started(alphabet, hints, background).consistent(),
{
    lemma_all_match(hints, hints.len());
}

/// Typing keeps the candidate set exact.
pub proof fn law_feed_keeps_consistency(s: SessionState, ch: char)
    requires
        s.consistent(),
    ensures
        s.fed(ch).consistent(),
{
    assert(s.typed.push(ch).subrange(0, s.typed.len() as int) == s.typed);
    lemma_narrow_twice(s.hints, s.typed, s.typed.push(ch), all_indices(s.hints.len()));
}

/// A backspace keeps the candidate set exact.
pub proof fn law_backspace_keeps_consistency(s: SessionState)
    requires
        s.consistent(),
    ensures
        s.backspaced().consistent(),
{
}

/// A backspace undoes the last typed character, and finds again the
/// candidates that it had dropped.
pub proof fn law_backspace_undoes_feed(s: SessionState, ch: char)
    requires
        s.consistent(),
    ensures
        s.fed(ch).backspaced() == s,
{
    assert(s.typed.push(ch).drop_last() == s.typed);
}

/// Members of an exact candidate set.
proof fn lemma_members(s: SessionState)
    requires
        s.consistent(),
    ensures
        forall|i: usize| s.matches.contains(i) <==> label_matches(s.hints, s.typed, i),
        s.matches.no_duplicates(),
{
    let all = all_indices(s.hints.len());
    let pred = |i: usize| label_matches(s.hints, s.typed, i);
    broadcast use vstd::seq_lib::group_filter_ensures;

    assert forall|i: usize| label_matches(s.hints, s.typed, i) implies s.matches.contains(i) by {
        assert(all[i as int] == i);
        assert(all.contains(i));
        assert(pred(i));
    }
    assert forall|i: usize| s.matches.contains(i) implies label_matches(s.hints, s.typed, i) by {
        assert(pred(i));
    }
    lemma_narrowed_distinct(s.hints, s.typed, s.hints.len());
}

proof fn lemma_narrowed_distinct(hints: Seq<HintState>, typed: Seq<char>, n: nat)
    requires
        n <= usize::MAX,
    ensures
        narrowed(hints, typed, all_indices(n)).no_duplicates(),
        forall|k: int|
            0 <= k < narrowed(hints, typed, all_indices(n)).len() ==> (#[trigger] narrowed(
                hints,
                typed,
                all_indices(n),
            )[k]) < n,
    decreases n,
{
    reveal(Seq::filter);
    if n > 0 {
        let m = (n - 1) as nat;
        lemma_narrowed_distinct(hints, typed, m);
        assert(all_indices(n).drop_last() == all_indices(m));
    }
}

/// A text that no label starts with cancels the session.
pub proof fn law_dead_end_cancels(s: SessionState, ch: char)
    requires
        s.consistent(),
        forall|i: usize| !label_matches(s.hints, s.typed.push(ch), i),
    ensures
        s.fed(ch).action() == HintAction::Cancel,
        s.fed(ch).matches.len() == 0,
{
    law_feed_keeps_consistency(s, ch);
    lemma_members(s.fed(ch));
    if s.fed(ch).matches.len() > 0 {
        assert(s.fed(ch).matches.contains(s.fed(ch).matches[0]));
    }
}

/// Typing a text letter by letter leaves the hints alone and the candidate
/// set exact.
pub proof fn law_fed_all(s: SessionState, word: Seq<char>)
    requires
        s.consistent(),
    ensures
        s.fed_all(word).consistent(),
        s.fed_all(word).typed == s.typed + word,
        s.fed_all(word).hints == s.hints,
        s.fed_all(word).background == s.background,
        s.fed_all(word).alphabet == s.alphabet,
    decreases word.len(),
{
    if word.len() == 0 {
        assert(s.typed + word == s.typed);
    } else {
        law_fed_all(s, word.drop_last());
        law_feed_keeps_consistency(s.fed_all(word.drop_last()), word.last());
        assert(s.typed + word == (s.typed + word.drop_last()).push(word.last()));
    }
}

/// With labels that do not begin one another, typing a label letter by
/// letter filters until its last letter, which commits to its target: the
/// target is opened in the background or clicked, as the session was started,
/// and whatever kind it is of.
pub proof fn law_typing_a_label_commits(s: SessionState, i: int, k: int)
    requires
        s.consistent(),
        s.typed.len() == 0,
        0 <= i < s.hints.len(),
        0 < k <= s.hints[i].label.len(),
        forall|x: int, y: int|
            0 <= x < s.hints.len() && 0 <= y < s.hints.len() && x != y
                ==> !(#[trigger] s.hints[x]).label.is_prefix_of((#[trigger] s.hints[y]).label),
    ensures
        s.fed_all(s.hints[i].label.take(k)).action() == if k < s.hints[i].label.len() {
            HintAction::Filter
        } else if s.background {
            HintAction::OpenInBackground(s.hints[i].element_id)
        } else {
            HintAction::Click(s.hints[i].element_id)
        },
{
    let word = s.hints[i].label;
    let t = s.fed_all(word.take(k));
    law_fed_all(s, word.take(k));
    assert(t.typed == word.take(k));
    lemma_members(t);
    assert(word.subrange(0, k) == word.take(k));
    assert(label_matches(t.hints, t.typed, i as usize));
    assert(t.matches.contains(i as usize));
    if k == word.len() {
        assert(word.take(k) == word);
        assert forall|j: usize| t.matches.contains(j) implies j == i by {
            assert(label_matches(t.hints, t.typed, j));
            assert(word.is_prefix_of(s.hints[j as int].label));
        }
        assert(t.matches.contains(t.matches[0]));
        if t.matches.len() > 1 {
            assert(t.matches.contains(t.matches[1]));
        }
    } else if t.matches.len() == 1 {
        assert(t.matches[0] == i as usize);
        assert(t.typed.len() < word.len());
    }
}

/// A new session offers every hint once and in order, and typing the whole
/// label of one commits to it, whatever kind it is of and whatever the
/// alphabet: in the background if the session was started so, by a click
/// otherwise.
pub proof fn law_new_session_finds_each_label(
    alphabet: Seq<char>,
    hints: Seq<HintState>,
    background: bool,
    i: int,
)
    requires
        hints.len() <= usize::MAX,
        0 <= i < hints.len(),
        hints[i].label.len() > 0,
        forall|x: int, y: int|
            0 <= x < hints.len() && 0 <= y < hints.len() && x != y
                ==> !(#[trigger] hints[x]).label.is_prefix_of((#[trigger] hints[y]).label),
    ensures
        SessionState::started(alphabet, hints, background).fed_all(hints[i].label).action() == (
        if background {
            HintAction::OpenInBackground(hints[i].element_id)
        } else {
            HintAction::Click(hints[i].element_id)
        }),
{
    let s = SessionState::started(alphabet, hints, background);
    law_started_is_consistent(alphabet, hints, background);
    law_typing_a_label_commits(s, i, hints[i].label.len() as int);
    assert(hints[i].label.take(hints[i].label.len() as int) == hints[i].label);
}

/// A new session: nothing typed, and hint `k` is candidate `k`.
pub proof fn law_new_session_offers_everything(
    alphabet: Seq<char>,
    hints: Seq<HintState>,
    background: bool,
)
    requires
        hints.len() <= usize::MAX,
    ensures
        ({
            let s = SessionState::started(alphabet, hints, background);
            &&& s.typed.len() == 0
            &&& s.alphabet == alphabet
            &&& s.hints == hints
            &&& s.background == background
            &&& s.matches.len() == hints.len()
            &&& forall|k: int| 0 <= k < hints.len() ==> #[trigger] s.matches[k] == k
        }),
{
}

/// A typed character is added to the typed text and changes nothing else but
/// the candidates: of those that were left, exactly the ones stay whose label
/// begins with the new text, and in order.
pub proof fn law_feed_narrows(s: SessionState, ch: char, j: usize)
    requires
        forall|a: int, b: int| 0 <= a < b < s.matches.len() ==> s.matches[a] < s.matches[b],
    ensures
        s.fed(ch).typed == s.typed + seq![ch],
        s.fed(ch).hints == s.hints,
        s.fed(ch).alphabet == s.alphabet,
        s.fed(ch).background == s.background,
        s.fed(ch).matches.contains(j) <==> s.matches.contains(j) && j < s.hints.len() && (
        s.typed + seq![ch]).is_prefix_of(s.hints[j as int].label),
        forall|a: int, b: int|
            0 <= a < b < s.fed(ch).matches.len() ==> s.fed(ch).matches[a] < s.fed(ch).matches[b],
{
    let typed = s.typed + seq![ch];
    assert(typed == s.typed.push(ch));
    lemma_narrowed_ascends(s.hints, typed, s.matches, j);
}

/// What is left after a typed character are hints of the session, and their
/// labels begin with what was typed.
pub proof fn law_fed_candidates_exist(s: SessionState, ch: char, k: int)
    requires
        0 <= k < s.fed(ch).matches.len(),
    ensures
        s.fed(ch).matches[k] < s.hints.len(),
        s.fed(ch).typed.is_prefix_of(s.hints[s.fed(ch).matches[k] as int].label),
{
    let typed = s.typed.push(ch);
    s.matches.filter_lemma(|i: usize| label_matches(s.hints, typed, i));
}

/// Each candidate is decided on by itself: it stays, once more for each time it
/// was there, exactly if its label begins with the new text.
pub proof fn law_feed_decides_each_candidate(s: SessionState, ch: char, before: Seq<usize>, j: usize)
    ensures
        (SessionState { matches: Seq::empty(), ..s }).fed(ch).matches.len() == 0,
        (SessionState { matches: before + seq![j], ..s }).fed(ch).matches == (SessionState {
            matches: before,
            ..s
        }).fed(ch).matches + if j < s.hints.len() && (s.typed + seq![ch]).is_prefix_of(
            s.hints[j as int].label,
        ) {
            seq![j]
        } else {
            Seq::empty()
        },
{
    reveal(Seq::filter);
    assert(s.typed.push(ch) =~= s.typed + seq![ch]);
    assert((before + seq![j]).drop_last() =~= before);
    assert((before + seq![j]).last() == j);
}

/// After a typed character, no candidate cancels, a single candidate whose
/// label is the typed text commits to its element, and anything else filters.
pub proof fn law_candidates_decide(s: SessionState)
    requires
        forall|k: int| 0 <= k < s.matches.len() ==> (#[trigger] s.matches[k]) < s.hints.len(),
    ensures
        s.action() == HintAction::Cancel <==> s.matches.len() == 0,
        s.action() == HintAction::Filter <==> s.matches.len() >= 2 || (s.matches.len() == 1
            && s.hints[s.matches[0] as int].label != s.typed),
        s.matches.len() == 1 && s.hints[s.matches[0] as int].label == s.typed && s.background
            ==> s.action() == HintAction::OpenInBackground(
            s.hints[s.matches[0] as int].element_id,
        ),
        s.matches.len() == 1 && s.hints[s.matches[0] as int].label == s.typed && !s.background
            ==> s.action() == HintAction::Click(s.hints[s.matches[0] as int].element_id),
{
}

/// A backspace drops the last typed character and finds every hint again whose
/// label begins with what is left, in order. With nothing typed it changes
/// nothing.
pub proof fn law_backspace_widens(s: SessionState, j: usize)
    requires
        s.hints.len() <= usize::MAX,
    ensures
        s.typed.len() == 0 ==> s.backspaced() == s,
        s.typed.len() > 0 ==> {
            let t = s.backspaced();
            &&& t.typed == s.typed.take(s.typed.len() - 1)
            &&& t.hints == s.hints
            &&& t.alphabet == s.alphabet
            &&& t.background == s.background
            &&& t.matches.contains(j) <==> j < s.hints.len() && s.typed.take(
                s.typed.len() - 1,
            ).is_prefix_of(s.hints[j as int].label)
            &&& forall|a: int, b: int|
                0 <= a < b < t.matches.len() ==> t.matches[a] < t.matches[b]
        },
{
    if s.typed.len() > 0 {
        assert(s.typed.drop_last() == s.typed.take(s.typed.len() - 1));
        let all = all_indices(s.hints.len());
        lemma_narrowed_ascends(s.hints, s.typed.drop_last(), all, j);
        if j < s.hints.len() {
            assert(all[j as int] == j);
        }
    }
}

/// Filtering keeps the order and exactly the matching members.
proof fn lemma_narrowed_ascends(
    hints: Seq<HintState>,
    typed: Seq<char>,
    from: Seq<usize>,
    j: usize,
)
    requires
        forall|a: int, b: int| 0 <= a < b < from.len() ==> from[a] < from[b],
    ensures
        narrowed(hints, typed, from).contains(j) <==> from.contains(j) && label_matches(
            hints,
            typed,
            j,
        ),
        forall|a: int, b: int|
            0 <= a < b < narrowed(hints, typed, from).len() ==> narrowed(hints, typed, from)[a]
                < narrowed(hints, typed, from)[b],
        forall|a: int|
            0 <= a < narrowed(hints, typed, from).len() ==> from.len() > 0 && #[trigger] narrowed(
                hints,
                typed,
                from,
            )[a] <= from.last(),
    decreases from.len(),
{
    reveal(Seq::filter);
    if from.len() > 0 {
        let front = from.drop_last();
        lemma_narrowed_ascends(hints, typed, front, j);
        let kept = narrowed(hints, typed, front);
        let all = narrowed(hints, typed, from);
        assert(from == front.push(from.last()));
        if label_matches(hints, typed, from.last()) {
            assert(all == kept.push(from.last()));
            assert(all[all.len() - 1] == from.last());
        } else {
            assert(all == kept);
        }
        assert(from[from.len() - 1] == from.last());
        if front.contains(j) {
            let k = choose|k: int| 0 <= k < front.len() && front[k] == j;
            assert(from[k] == j);
        }
        if kept.contains(j) {
            let k = choose|k: int| 0 <= k < kept.len() && kept[k] == j;
            assert(all[k] == j);
        }
    }
}

/// A session is read off field by field, each hint with its own label, element
/// and place.
pub proof fn law_session_is_read_off(s: HintSession, k: int)
    requires
        0 <= k < s.hints@.len(),
    ensures
        s@.typed == s.typed@,
        s@.matches == s.matches@,
        s@.background == s.background,
        s@.alphabet == s.alphabet@,
        s@.hints.len() == s.hints@.len(),
        s@.hints[k].label == s.hints@[k].label@,
        s@.hints[k].element_id == s.hints@[k].element_id,
        s@.hints[k].rect == s.hints@[k].rect,
        s@.hints[k].kind == s.hints@[k].kind,
{
}

/// An alphabet is refused for the first character that occurs a second time,
/// whatever follows it, and for being too short only if none does.
pub proof fn law_first_repeat(s: Seq<char>, m: int, k: int)
    requires
        0 <= m < k < s.len(),
        s[m] == s[k],
        forall|i: int, j: int| 0 <= i < j < k ==> s[i] != s[j],
    ensures
        first_repeat(s) == Some(s[k]),
{
    let front = s.take(k);
    assert(front.no_duplicates());
    lemma_no_repeat(front);
    let next = s.take(k + 1);
    assert(next.drop_last() =~= front);
    assert(front[m] == s[k]);
    lemma_first_repeat_stays(s, k + 1);
}

/// Nothing repeats exactly if all characters are different.
pub proof fn law_no_repeat(s: Seq<char>)
    ensures
        first_repeat(s) is None <==> forall|i: int, j: int| 0 <= i < j < s.len() ==> s[i] != s[j],
        valid_alphabet(s) <==> s.len() >= 2 && forall|i: int, j: int|
            0 <= i < j < s.len() ==> s[i] != s[j],
{
    lemma_no_repeat(s);
    if forall|i: int, j: int| 0 <= i < j < s.len() ==> s[i] != s[j] {
        assert(s.no_duplicates());
    }
}

/// Events that the renderer reports in hint-mode console lines.
#[derive(Debug, Clone, PartialEq)]
pub enum HintConsoleEvent {
    /// The targets of the page and the alphabet that labelled them.
    Ready { hints: Vec<Hint>, alphabet: String },
    /// The injected script failed.
    Error { message: String },
}

/// One-slot mailbox for hint events: a later event replaces an unread one.
pub type HintEventSink = Option<HintConsoleEvent>;

/// An empty mailbox.
pub fn new_hint_event_sink() -> (r: HintEventSink)
    ensures
        r is None,
{
    None
}

/// Put `event` into the mailbox in place of what it holds.
pub fn store_hint_event(sink: &mut HintEventSink, event: HintConsoleEvent)
    ensures
        *final(sink) == Some(event),
{
    *sink = Some(event);
}

/// Take the latest event out of the mailbox, once per write.
pub fn take_hint_event(sink: &mut HintEventSink) -> (r: Option<HintConsoleEvent>)
    ensures
        r == *old(sink),
        *final(sink) is None,
{
    sink.take()
}

/// The payload of a hint-mode console line: what follows the sentinel,
/// wherever it stands in the line. `None` for any other line.
pub fn console_payload(message: &str) -> (r: Option<String>)
    ensures
        match r {
            Some(t) => after_first(message@, HINT_CONSOLE_SENTINEL@) == Some(t@),
            None => after_first(message@, HINT_CONSOLE_SENTINEL@) is None,
        },
        match r {
            Some(t) => after_first(message@, "__buffr_hint__:"@) == Some(t@),
            None => after_first(message@, "__buffr_hint__:"@) is None,
        },
{
    find_after(message, HINT_CONSOLE_SENTINEL)
}

/// The hint script: alphabet and selectors as literal bodies, the labels as an
/// array literal.
pub open spec fn inject_script(
    alphabet: Seq<char>,
    labels: Seq<Seq<char>>,
    selectors: Seq<char>,
) -> Seq<char> {
    replaced(
        replaced(
            replaced(HINT_JS@, "__ALPHABET__"@, escaped('\'', alphabet)),
            "__LABELS__"@,
            array_literal(labels),
        ),
        "__SELECTORS__"@,
        escaped('\'', selectors),
    )
}

/// Build the script that labels the targets of a page.
pub fn build_inject_script(alphabet: &str, labels: &[String], selectors: &str) -> (r: String)
    ensures
        r@ == inject_script(alphabet@, views(labels@), selectors@),
        ascii(r@),
{
    proof {
        law_injected_script_is_ascii(alphabet@, views(labels@), selectors@);
        reveal_strlit("__ALPHABET__");
        reveal_strlit("__LABELS__");
        reveal_strlit("__SELECTORS__");
    }
    let alphabet_lit = json_string_inner(alphabet);
    let selectors_lit = json_string_inner(selectors);
    let labels_lit = json_string_array(labels);
    let a = replace_all(HINT_JS, "__ALPHABET__", alphabet_lit.as_str());
    let b = replace_all(a.as_str(), "__LABELS__", labels_lit.as_str());
    replace_all(b.as_str(), "__SELECTORS__", selectors_lit.as_str())
}

proof fn lemma_replaced_ascii(s: Seq<char>, mark: Seq<char>, with: Seq<char>)
    requires
        ascii(s),
        ascii(with),
    ensures
        ascii(replaced(s, mark, with)),
    decreases s.len(),
{
    if mark.len() == 0 || s.len() < mark.len() {
    } else if mark.is_prefix_of(s) {
        let rest = s.skip(mark.len() as int);
        lemma_replaced_ascii(rest, mark, with);
        lemma_ascii_concat(with, replaced(rest, mark, with));
    } else {
        lemma_replaced_ascii(s.drop_first(), mark, with);
        lemma_ascii_concat(seq![s[0]], replaced(s.drop_first(), mark, with));
    }
}

proof fn lemma_ascii_concat(x: Seq<char>, y: Seq<char>)
    requires
        ascii(x),
        ascii(y),
    ensures
        ascii(x + y),
{
    assert forall|i: int| 0 <= i < (x + y).len() implies (#[trigger] (x + y)[i]) <= '\u{7f}' by {
        if i < x.len() {
            assert((x + y)[i] == x[i]);
        } else {
            assert((x + y)[i] == y[i - x.len()]);
        }
    }
}

/// The injected script is ASCII, whatever the alphabet, labels and selectors
/// hold.
pub proof fn law_injected_script_is_ascii(
    alphabet: Seq<char>,
    labels: Seq<Seq<char>>,
    selectors: Seq<char>,
)
    ensures
        ascii(inject_script(alphabet, labels, selectors)),
{
    lemma_hint_script_is_ascii();
    law_escaped_is_ascii('\'', alphabet);
    law_escaped_is_ascii('\'', selectors);
    law_array_is_ascii(labels);
    let a = replaced(HINT_JS@, "__ALPHABET__"@, escaped('\'', alphabet));
    lemma_replaced_ascii(HINT_JS@, "__ALPHABET__"@, escaped('\'', alphabet));
    let b = replaced(a, "__LABELS__"@, array_literal(labels));
    lemma_replaced_ascii(a, "__LABELS__"@, array_literal(labels));
    lemma_replaced_ascii(b, "__SELECTORS__"@, escaped('\'', selectors));
}

/// The script is the hint script with the alphabet, the array of the labels and
/// the selectors in the places kept for them, text as it stands in a
/// single-quoted literal.
pub proof fn law_script_is_filled_in(
    alphabet: Seq<char>,
    labels: Seq<Seq<char>>,
    selectors: Seq<char>,
)
    ensures
        ({
            let a = replaced(HINT_JS@, "__ALPHABET__"@, escaped('\'', alphabet));
            let b = replaced(a, "__LABELS__"@, array_literal(labels));
            inject_script(alphabet, labels, selectors) == replaced(
                b,
                "__SELECTORS__"@,
                escaped('\'', selectors),
            )
        }),
{
}

/// What is used where the user sets nothing.
pub proof fn law_hint_defaults()
    ensures
        DEFAULT_HINT_ALPHABET@ == "asdfghjkl;weruio"@,
        valid_alphabet(DEFAULT_HINT_ALPHABET@),
        DEFAULT_HINT_SELECTORS@
            == "a, button, input, select, textarea, [role=button], [role=link], [role=checkbox], [role=menuitem], [tabindex]:not([tabindex='-1'])"@,
        HINT_CONSOLE_SENTINEL@ == "__buffr_hint__:"@,
        HINT_OVERLAY_CLASS@ == "buffr-hint-overlay"@,
        HINT_OVERLAY_Z_INDEX == 2_147_483_647,
{
    reveal_strlit("asdfghjkl;weruio");
}

} // verus!
