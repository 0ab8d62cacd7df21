//! Usage counters: local, opt-in, never sent anywhere.
//!
//! With the switch off every operation does nothing and no file is written.
//! With it on, counts add up in memory and are written as a JSON object that
//! the user owns. The embedder reads and writes the file; the counters take
//! its bytes and give the bytes to write. Keys with a zero count are omitted.
use crate::json::json_text;
use crate::text::{decimal, same_text};
use std::collections::BTreeMap;
use std::path::PathBuf;
use vstd::prelude::*;
use vstd::utf8::encode_utf8;

verus! {

/// Counted once per start of the browser runtime.
pub const KEY_APP_STARTS: &'static str = "app_starts";

/// Counted per opened tab.
pub const KEY_TABS_OPENED: &'static str = "tabs_opened";

/// Counted per loaded main frame.
pub const KEY_PAGES_LOADED: &'static str = "pages_loaded";

/// Counted per search.
pub const KEY_SEARCHES_RUN: &'static str = "searches_run";

/// Counted per added bookmark.
pub const KEY_BOOKMARKS_ADDED: &'static str = "bookmarks_added";

/// Counted per completed download.
pub const KEY_DOWNLOADS_COMPLETED: &'static str = "downloads_completed";

/// `std::path::PathBuf`, carried through and never looked into.
#[verifier::external_type_specification]
#[verifier::external_body]
pub struct ExPathBuf(PathBuf);

/// What can go wrong with the counter file.
#[derive(Debug, PartialEq, Eq)]
pub enum TelemetryError {
    /// The file could not be read or written.
    Io(String),
    /// The counts could not be written as JSON.
    Json(String),
}

/// The counts in a list of pairs; a later pair wins over an earlier one.
pub open spec fn counts_map(list: Seq<(String, u64)>) -> Map<Seq<char>, u64>
    decreases list.len(),
{
    if list.len() == 0 {
        Map::empty()
    } else {
        counts_map(list.drop_last()).insert(list.last().0@, list.last().1)
    }
}

/// No key occurs twice.
pub open spec fn distinct_keys(list: Seq<(String, u64)>) -> bool {
    forall|i: int, j: int|
        0 <= i < j < list.len() ==> (#[trigger] list[i]).0@ != (#[trigger] list[j]).0@
}

/// The counts above zero.
pub open spec fn nonzero(counts: Map<Seq<char>, u64>) -> Map<Seq<char>, u64> {
    counts.restrict(
        counts.dom().filter(|k: Seq<char>| counts[k] != 0),
    )
}

/// The counts that a JSON text holds, if it is an object of numbers.
pub uninterp spec fn counts_json(raw: Seq<u8>) -> Option<Map<Seq<char>, u64>>;

/// `serde_json::from_slice` into a map from strings to numbers. The result is
/// named: an object of unsigned numbers reads as its pairs, with the last of
/// repeated keys; anything else fails.
#[verifier::external_body]
fn counts_from_json(raw: &[u8]) -> (r: Option<Vec<(String, u64)>>)
    ensures
        match r {
            Some(list) => counts_json(raw@) == Some(counts_map(list@)) && distinct_keys(list@),
            None => counts_json(raw@) is None,
        },
{
    let map = serde_json::from_slice::<BTreeMap<String, u64>>(raw).ok()?;
    Some(map.into_iter().collect())
}

/// The lines of a JSON object with these members, each in front of a line
/// break and two spaces, separated by commas.
pub open spec fn member_lines(pairs: Seq<(String, u64)>) -> Seq<char>
    decreases pairs.len(),
{
    if pairs.len() == 0 {
        Seq::empty()
    } else {
        let start = if pairs.len() == 1 {
            "\n  "@
        } else {
            ",\n  "@
        };
        member_lines(pairs.drop_last()) + start + json_text(pairs.last().0@) + ": "@ + decimal(
            pairs.last().1 as nat,
        )
    }
}

/// A JSON object with these members, one to a line; `{}` without any.
pub open spec fn pretty_object(pairs: Seq<(String, u64)>) -> Seq<char> {
    if pairs.len() == 0 {
        "{}"@
    } else {
        "{"@ + member_lines(pairs) + "\n}"@
    }
}

/// Whether `raw` is a pretty-printed object of these counts, each key once, in
/// some order.
pub open spec fn pretty_printed(raw: Seq<u8>, counts: Map<Seq<char>, u64>) -> bool {
    exists|pairs: Seq<(String, u64)>|
        distinct_keys(pairs) && counts_map(pairs) == counts && raw == encode_utf8(
            #[trigger] pretty_object(pairs),
        )
}

/// `serde_json::to_vec_pretty` of a map from strings to numbers: a JSON
/// object, in memory, so writing cannot fail. It has one member to a line,
/// indented by two spaces, with a colon and a space between key and number;
/// an empty map is `{}`. In which order the members come is not stated.
/// Something is always written, and reading it back gives the map.
#[verifier::external_body]
fn counts_to_json(list: &Vec<(String, u64)>) -> (r: Option<Vec<u8>>)
    ensures
        r is Some,
        r->0@.len() > 0,
        pretty_printed(r->0@, counts_map(list@)),
        counts_json(r->0@) == Some(counts_map(list@)),
        list@.len() == 0 ==> r->0@ == seq![123u8, 125u8],
{
    let map: BTreeMap<&String, &u64> = list.iter().map(|p| (&p.0, &p.1)).collect();
    serde_json::to_vec_pretty(&map).ok()
}

/// The usage counters.
pub struct UsageCounters {
    path: PathBuf,
    enabled: bool,
    counts: Vec<(String, u64)>,
}

/// The counts at the start: those of the file if the switch is on and the
/// file could be read, else none.
pub open spec fn counts_at_open(
    enabled: bool,
    stored: Option<Map<Seq<char>, u64>>,
) -> Map<Seq<char>, u64> {
    match stored {
        Some(m) => if enabled {
            m
        } else {
            Map::empty()
        },
        None => Map::empty(),
    }
}

/// What a counter file holds: nothing if it is empty.
pub open spec fn file_counts(disk: Option<Seq<u8>>) -> Option<Map<Seq<char>, u64>> {
    match disk {
        Some(raw) => if raw.len() == 0 {
            None
        } else {
            counts_json(raw)
        },
        None => None,
    }
}

/// Whether `raw` is what a session with these counts writes: the counts above
/// zero, pretty-printed. The file is not empty and reads as these counts.
pub open spec fn stores(raw: Seq<u8>, counts: Map<Seq<char>, u64>) -> bool {
    &&& pretty_printed(raw, nonzero(counts))
    &&& raw.len() > 0
    &&& counts_json(raw) == Some(nonzero(counts))
}

/// The counts after one more of `key`.
pub open spec fn counted(counts: Map<Seq<char>, u64>, key: Seq<char>) -> Map<Seq<char>, u64> {
    let before = if counts.contains_key(key) {
        counts[key]
    } else {
        0
    };
    counts.insert(
        key,
        if before < u64::MAX {
            (before + 1) as u64
        } else {
            before
        },
    )
}

/// The counts after `n` more of `key`.
pub open spec fn counted_times(
    counts: Map<Seq<char>, u64>,
    key: Seq<char>,
    n: nat,
) -> Map<Seq<char>, u64>
    decreases n,
{
    if n == 0 {
        counts
    } else {
        counted(counted_times(counts, key, (n - 1) as nat), key)
    }
}

/// The counts after one more of each key in turn.
pub open spec fn counted_all(
    counts: Map<Seq<char>, u64>,
    keys: Seq<Seq<char>>,
) -> Map<Seq<char>, u64>
    decreases keys.len(),
{
    if keys.len() == 0 {
        counts
    } else {
        counted(counted_all(counts, keys.drop_last()), keys.last())
    }
}

/// No count is zero.
pub open spec fn all_above_zero(counts: Map<Seq<char>, u64>) -> bool {
    forall|key: Seq<char>| #[trigger] counts.contains_key(key) ==> counts[key] > 0
}

/// View of an optional byte vector.
pub open spec fn bytes_view(b: Option<Vec<u8>>) -> Option<Seq<u8>> {
    match b {
        Some(v) => Some(v@),
        None => None,
    }
}

/// With distinct keys, a pair decides about its key.
proof fn lemma_counts_at(list: Seq<(String, u64)>, i: int)
    requires
        distinct_keys(list),
        0 <= i < list.len(),
    ensures
        counts_map(list).contains_key(list[i].0@),
        counts_map(list)[list[i].0@] == list[i].1,
    decreases list.len(),
{
    if i < list.len() - 1 {
        let rest = list.drop_last();
        assert(distinct_keys(rest));
        lemma_counts_at(rest, i);
        assert(list[i].0@ != list[list.len() - 1].0@);
    }
}

/// A key that no pair has is not in the map.
proof fn lemma_counts_absent(list: Seq<(String, u64)>, key: Seq<char>)
    requires
        forall|i: int| 0 <= i < list.len() ==> (#[trigger] list[i]).0@ != key,
    ensures
        !counts_map(list).contains_key(key),
    decreases list.len(),
{
    if list.len() > 0 {
        lemma_counts_absent(list.drop_last(), key);
    }
}

/// Changing the number of one pair changes the map at its key.
proof fn lemma_counts_update(list: Seq<(String, u64)>, i: int, n: u64)
    requires
        distinct_keys(list),
        0 <= i < list.len(),
    ensures
        counts_map(list.update(i, (list[i].0, n))) == counts_map(list).insert(list[i].0@, n),
        distinct_keys(list.update(i, (list[i].0, n))),
    decreases list.len(),
{
    let changed = list.update(i, (list[i].0, n));
    assert(distinct_keys(changed)) by {
        assert forall|a: int, b: int| 0 <= a < b < changed.len() implies (
        #[trigger] changed[a]).0@ != (#[trigger] changed[b]).0@ by {
            assert(changed[a].0@ == list[a].0@ && changed[b].0@ == list[b].0@);
        }
    }
    let rest = list.drop_last();
    if i == list.len() - 1 {
        assert(changed.drop_last() == rest);
        assert(counts_map(list).insert(list[i].0@, n) =~= counts_map(rest).insert(list[i].0@, n));
    } else {
        assert(distinct_keys(rest));
        lemma_counts_update(rest, i, n);
        assert(changed.drop_last() == rest.update(i, (rest[i].0, n)));
        assert(list[i].0@ != list[list.len() - 1].0@);
        assert(counts_map(changed) =~= counts_map(list).insert(list[i].0@, n));
    }
}

/// Position of `key` in the list, or its length.
fn key_position(list: &Vec<(String, u64)>, key: &str) -> (r: usize)
    ensures
        r <= list@.len(),
        r < list@.len() ==> list@[r as int].0@ == key@,
        r == list@.len() ==> forall|i: int|
            0 <= i < list@.len() ==> (#[trigger] list@[i]).0@ != key@,
{
    let mut i: usize = 0;
    while i < list.len()
        invariant
            i <= list@.len(),
            forall|k: int| 0 <= k < i ==> (#[trigger] list@[k]).0@ != key@,
        decreases list@.len() - i,
    {
        if same_text(list[i].0.as_str(), key) {
            return i;
        }
        i += 1;
    }
    i
}

/// Set the number of `key`.
fn put(list: &mut Vec<(String, u64)>, key: &str, n: u64)
    requires
        distinct_keys(old(list)@),
    ensures
        distinct_keys(final(list)@),
        counts_map(final(list)@) == counts_map(old(list)@).insert(key@, n),
{
    let i = key_position(list, key);
    if i < list.len() {
        let name = list[i].0.clone();
        proof {
            lemma_counts_update(list@, i as int, n);
        }
        list.set(i, (name, n));
        assert(list@ == old(list)@.update(i as int, (old(list)@[i as int].0, n)));
    } else {
        list.push((key.to_owned(), n));
        assert(list@.drop_last() == old(list)@);
    }
}

impl UsageCounters {
    /// The counts, by key.
    pub closed spec fn counts(self) -> Map<Seq<char>, u64> {
        counts_map(self.counts@)
    }

    /// Whether counting is switched on.
    pub closed spec fn is_enabled(self) -> bool {
        self.enabled
    }

    /// Where the counts are stored.
    pub closed spec fn store_path(self) -> PathBuf {
        self.path
    }

    #[verifier::type_invariant]
    spec fn wf(self) -> bool {
        &&& distinct_keys(self.counts@)
        &&& !self.enabled ==> self.counts@.len() == 0
    }

    /// Open the counters stored at `path`, whose bytes are `disk` if the file
    /// is there and could be read. A file that holds something else than
    /// counts is treated as missing.
    pub fn open(path: PathBuf, enabled: bool, disk: Option<Vec<u8>>) -> (r: Self)
        ensures
            r.store_path() == path,
            r.is_enabled() == enabled,
            r.counts() == counts_at_open(enabled, file_counts(bytes_view(disk))),
    {
        let stored = match disk {
            Some(raw) => if !enabled || raw.len() == 0 {
                None
            } else {
                counts_from_json(raw.as_slice())
            },
            None => None,
        };
        Self::open_with(path, enabled, stored)
    }

    /// Open the counters with what the file holds.
    pub fn open_with(path: PathBuf, enabled: bool, stored: Option<Vec<(String, u64)>>) -> (r: Self)
        ensures
            r.store_path() == path,
            r.is_enabled() == enabled,
            r.counts() == counts_at_open(
                enabled,
                match stored {
                    Some(list) => Some(counts_map(list@)),
                    None => None,
                },
            ),
    {
        let mut counts: Vec<(String, u64)> = Vec::new();
        if enabled {
            if let Some(list) = stored {
                let mut i: usize = 0;
                assert(list@.take(0) == Seq::<(String, u64)>::empty());
                while i < list.len()
                    invariant
                        i <= list@.len(),
                        distinct_keys(counts@),
                        counts_map(counts@) == counts_map(list@.take(i as int)),
                    decreases list@.len() - i,
                {
                    put(&mut counts, list[i].0.as_str(), list[i].1);
                    assert(list@.take(i + 1).drop_last() == list@.take(i as int));
                    i += 1;
                }
                assert(list@.take(list@.len() as int) == list@);
            }
        }
        UsageCounters { path, enabled, counts }
    }

    /// Where the counts are stored.
    pub fn path(&self) -> (r: &PathBuf)
        ensures
            *r == self.store_path(),
    {
        &self.path
    }

    /// Whether counting is switched on.
    pub fn enabled(&self) -> (r: bool)
        ensures
            r == self.is_enabled(),
    {
        self.enabled
    }

    /// Count one more of `key`. Does nothing when switched off.
    pub fn increment(&mut self, key: &str)
        ensures
            final(self).is_enabled() == old(self).is_enabled(),
            final(self).store_path() == old(self).store_path(),
            final(self).counts() == if old(self).is_enabled() {
                counted(old(self).counts(), key@)
            } else {
                old(self).counts()
            },
    {
        proof {
            use_type_invariant(&*self);
        }
        if !self.enabled {
            return;
        }
        let mut counts: Vec<(String, u64)> = Vec::new();
        std::mem::swap(&mut counts, &mut self.counts);
        let i = key_position(&counts, key);
        let before: u64 = if i < counts.len() {
            proof {
                lemma_counts_at(counts@, i as int);
            }
            counts[i].1
        } else {
            proof {
                lemma_counts_absent(counts@, key@);
            }
            0
        };
        put(&mut counts, key, before.saturating_add(1));
        self.counts = counts;
    }

    /// The bytes to write to the file. `None` when switched off: the file is
    /// then left alone.
    pub fn flush(&self) -> (r: Option<Vec<u8>>)
        ensures
            match r {
                Some(raw) => self.is_enabled() && stores(raw@, self.counts()),
                None => !self.is_enabled(),
            },
    {
        match self.flush_strict() {
            Ok(r) => r,
            Err(_) => None,
        }
    }

    /// Like [`UsageCounters::flush`], with the error if there is one.
    pub fn flush_strict(&self) -> (r: Result<Option<Vec<u8>>, TelemetryError>)
        ensures
            match r {
                Ok(Some(raw)) => self.is_enabled() && stores(raw@, self.counts()),
                Ok(None) => !self.is_enabled(),
                Err(_) => false,
            },
    {
        if !self.enabled {
            return Ok(None);
        }
        let list = self.written();
        match counts_to_json(&list) {
            Some(raw) => Ok(Some(raw)),
            None => Err(TelemetryError::Json("counts could not be written".to_owned())),
        }
    }

    /// The pairs that are written: those above zero.
    fn written(&self) -> (r: Vec<(String, u64)>)
        ensures
            counts_map(r@) == nonzero(self.counts()),
    {
        proof {
            use_type_invariant(self);
        }
        let mut out: Vec<(String, u64)> = Vec::new();
        let mut i: usize = 0;
        assert(self.counts@.take(0) == Seq::<(String, u64)>::empty());
        assert(nonzero(Map::<Seq<char>, u64>::empty()) =~= Map::empty());
        while i < self.counts.len()
            invariant
                i <= self.counts@.len(),
                distinct_keys(self.counts@),
                counts_map(out@) == nonzero(counts_map(self.counts@.take(i as int))),
            decreases self.counts@.len() - i,
        {
            let ghost before = out@;
            let ghost here = self.counts@.take(i as int);
            let ghost next = self.counts@.take(i + 1);
            let ghost key = self.counts@[i as int].0@;
            assert(next.drop_last() == here);
            proof {
                assert forall|k: int| 0 <= k < here.len() implies (#[trigger] here[k]).0@ != key by {
                    assert(here[k] == self.counts@[k]);
                }
                lemma_counts_absent(here, key);
            }
            if self.counts[i].1 != 0 {
                let pair = (self.counts[i].0.clone(), self.counts[i].1);
                out.push(pair);
                assert(out@.drop_last() == before);
                assert(counts_map(out@) =~= nonzero(counts_map(next)));
            } else {
                assert(nonzero(counts_map(next)) =~= nonzero(counts_map(here)));
            }
            i += 1;
        }
        assert(self.counts@.take(self.counts@.len() as int) == self.counts@);
        out
    }

    /// The counts in memory, none when switched off. The file is not read
    /// again.
    pub fn read(&self) -> (r: Result<Vec<(String, u64)>, TelemetryError>)
        ensures
            r is Ok,
            counts_map(r->Ok_0@) == self.counts(),
            distinct_keys(r->Ok_0@),
            !self.is_enabled() ==> r->Ok_0@.len() == 0,
    {
        proof {
            use_type_invariant(self);
        }
        let mut out: Vec<(String, u64)> = Vec::new();
        let mut i: usize = 0;
        while i < self.counts.len()
            invariant
                i <= self.counts@.len(),
                out@ == self.counts@.take(i as int),
            decreases self.counts@.len() - i,
        {
            let pair = (self.counts[i].0.clone(), self.counts[i].1);
            out.push(pair);
            assert(out@ =~= self.counts@.take(i + 1));
            i += 1;
        }
        assert(self.counts@.take(self.counts@.len() as int) == self.counts@);
        Ok(out)
    }

    /// Forget all counts. Returns the bytes to write to the file, `{}`, or
    /// `None` when switched off: the file is then left alone.
    pub fn reset(&mut self) -> (r: Result<Option<Vec<u8>>, TelemetryError>)
        ensures
            final(self).is_enabled() == old(self).is_enabled(),
            final(self).store_path() == old(self).store_path(),
            final(self).counts() == Map::<Seq<char>, u64>::empty(),
            match r {
                Ok(Some(raw)) => old(self).is_enabled() && raw@ == seq![123u8, 125u8],
                Ok(None) => !old(self).is_enabled(),
                Err(_) => false,
            },
    {
        proof {
            use_type_invariant(&*self);
        }
        if !self.enabled {
            return Ok(None);
        }
        self.counts = Vec::new();
        match counts_to_json(&Vec::new()) {
            Some(raw) => Ok(Some(raw)),
            None => Err(TelemetryError::Json("counts could not be written".to_owned())),
        }
    }
}

/// Switched off, nothing is ever counted, whatever the file holds.
pub proof fn law_disabled_counts_nothing(stored: Option<Map<Seq<char>, u64>>)
    ensures
        counts_at_open(false, stored) == Map::<Seq<char>, u64>::empty(),
{
}

/// What one session writes the next one reads, without the zero counts.
pub proof fn law_next_session_continues(counts: Map<Seq<char>, u64>, raw: Seq<u8>)
    requires
        stores(raw, counts),
    ensures
        counts_at_open(true, file_counts(Some(raw))) == nonzero(counts),
        forall|key: Seq<char>|
            #![trigger counts.contains_key(key)]
            counts.contains_key(key) && counts[key] > 0 ==> counts_at_open(
                true,
                file_counts(Some(raw)),
            ).contains_key(key) && counts_at_open(true, file_counts(Some(raw)))[key] == counts[key],
{
}

/// A session that starts without zero counts, as one without a file does, and
/// counts any keys, is continued with exactly its totals by the session that
/// opens the file it wrote; which again has no zero counts.
pub proof fn law_totals_are_carried_over(
    start: Map<Seq<char>, u64>,
    keys: Seq<Seq<char>>,
    raw: Seq<u8>,
)
    requires
        all_above_zero(start),
        stores(raw, counted_all(start, keys)),
    ensures
        counts_at_open(true, file_counts(Some(raw))) == counted_all(start, keys),
        all_above_zero(counts_at_open(true, file_counts(Some(raw)))),
        all_above_zero(counts_at_open(true, file_counts(None))),
{
    let total = counted_all(start, keys);
    lemma_counts_stay_above_zero(start, keys);
    assert(nonzero(total) =~= total);
}

proof fn lemma_counts_stay_above_zero(start: Map<Seq<char>, u64>, keys: Seq<Seq<char>>)
    requires
        all_above_zero(start),
    ensures
        all_above_zero(counted_all(start, keys)),
    decreases keys.len(),
{
    if keys.len() > 0 {
        lemma_counts_stay_above_zero(start, keys.drop_last());
    }
}

/// Counting `n` times adds `n`, up to the largest number, and leaves the other
/// keys alone.
pub proof fn law_counts_add_up(counts: Map<Seq<char>, u64>, key: Seq<char>, n: nat)
    requires
        n > 0,
    ensures
        ({
            let before: int = if counts.contains_key(key) {
                counts[key] as int
            } else {
                0
            };
            &&& counted_times(counts, key, n).contains_key(key)
            &&& counted_times(counts, key, n)[key] == if before + n <= u64::MAX {
                before + n
            } else {
                u64::MAX as int
            }
        }),
        forall|k: Seq<char>|
            #![trigger counted_times(counts, key, n).contains_key(k)]
            k != key ==> (counted_times(counts, key, n).contains_key(k) <==> counts.contains_key(k))
                && (counts.contains_key(k) ==> counted_times(counts, key, n)[k] == counts[k]),
    decreases n,
{
    let m = (n - 1) as nat;
    if m > 0 {
        law_counts_add_up(counts, key, m);
        assert forall|k: Seq<char>|
            #![trigger counted_times(counts, key, n).contains_key(k)]
            k != key implies (counted_times(counts, key, n).contains_key(k)
            <==> counts.contains_key(k)) && (counts.contains_key(k) ==> counted_times(
            counts,
            key,
            n,
        )[k] == counts[k]) by {
            assert(counted_times(counts, key, m).contains_key(k) <==> counts.contains_key(k));
        }
    } else {
        assert(counted_times(counts, key, 0) == counts);
    }
}

/// Counting adds one to the key, which starts at zero, stops at the largest
/// number, and touches no other key.
pub proof fn law_counting_adds_one(counts: Map<Seq<char>, u64>, key: Seq<char>, other: Seq<char>)
    ensures
        counted(counts, key).contains_key(key),
        !counts.contains_key(key) ==> counted(counts, key)[key] == 1,
        counts.contains_key(key) && counts[key] < u64::MAX ==> counted(counts, key)[key]
            == counts[key] + 1,
        counts.contains_key(key) && counts[key] == u64::MAX ==> counted(counts, key)[key]
            == u64::MAX,
        other != key ==> (counted(counts, key).contains_key(other) <==> counts.contains_key(other))
            && (counts.contains_key(other) ==> counted(counts, key)[other] == counts[other]),
{
}

/// A session that counts starts with what the file holds, and with nothing if
/// there is no file, if it is empty or if it is not an object of numbers.
pub proof fn law_session_starts_with_the_file(raw: Seq<u8>, m: Map<Seq<char>, u64>)
    ensures
        raw.len() > 0 && counts_json(raw) == Some(m) ==> counts_at_open(
            true,
            file_counts(Some(raw)),
        ) == m,
        raw.len() == 0 || counts_json(raw) is None ==> counts_at_open(
            true,
            file_counts(Some(raw)),
        ) == Map::<Seq<char>, u64>::empty(),
        counts_at_open(true, file_counts(None)) == Map::<Seq<char>, u64>::empty(),
        counts_at_open(true, Some(m)) == m,
{
}

/// What is written holds every count above zero under its key, and nothing
/// else.
pub proof fn law_file_holds_the_counts(
    raw: Seq<u8>,
    counts: Map<Seq<char>, u64>,
    key: Seq<char>,
)
    requires
        stores(raw, counts),
    ensures
        raw.len() > 0,
        counts_json(raw) is Some,
        counts_json(raw)->0.contains_key(key) <==> counts.contains_key(key) && counts[key] > 0,
        counts_json(raw)->0.contains_key(key) ==> counts_json(raw)->0[key] == counts[key],
{
}

/// Pairs with different keys are the counts of those keys, and of no others.
pub proof fn law_pairs_are_counts(list: Seq<(String, u64)>, key: Seq<char>, i: int)
    requires
        forall|a: int, b: int|
            0 <= a < b < list.len() ==> (#[trigger] list[a]).0@ != (#[trigger] list[b]).0@,
    ensures
        0 <= i < list.len() ==> counts_map(list).contains_key(list[i].0@) && counts_map(
            list,
        )[list[i].0@] == list[i].1,
        (forall|k: int| 0 <= k < list.len() ==> (#[trigger] list[k]).0@ != key) ==> !counts_map(
            list,
        ).contains_key(key),
{
    if 0 <= i < list.len() {
        lemma_counts_at(list, i);
    }
    if forall|k: int| 0 <= k < list.len() ==> (#[trigger] list[k]).0@ != key {
        lemma_counts_absent(list, key);
    }
}

/// The counter file has a brace, one line for each count, indented by two
/// spaces and separated by commas, and a brace; `{}` without a count.
pub proof fn law_counter_file_layout(pairs: Seq<(String, u64)>, key: String, n: u64)
    ensures
        pretty_object(Seq::empty()) == "{}"@,
        pretty_object(seq![(key, n)]) == "{"@ + "\n  "@ + json_text(key@) + ": "@ + decimal(n as nat)
            + "\n}"@,
        pairs.len() > 0 ==> pretty_object(pairs + seq![(key, n)]) == pretty_object(pairs).take(
            pretty_object(pairs).len() - 2,
        ) + ",\n  "@ + json_text(key@) + ": "@ + decimal(n as nat) + "\n}"@,
{
    reveal_strlit("\n}");
    let all = pairs + seq![(key, n)];
    let last = seq![(key, n)];
    assert(all.drop_last() =~= pairs);
    assert(all.last() == (key, n));
    assert(last.drop_last() =~= Seq::empty());
    assert(member_lines(Seq::<(String, u64)>::empty()).len() == 0);
    assert(member_lines(last) =~= "\n  "@ + json_text(key@) + ": "@ + decimal(n as nat));
    if pairs.len() > 0 {
        assert(pretty_object(pairs).take(pretty_object(pairs).len() - 2) =~= "{"@ + member_lines(
            pairs,
        ));
    }
}

/// The names of the counters.
pub proof fn law_counter_names()
    ensures
        KEY_APP_STARTS@ == "app_starts"@,
        KEY_TABS_OPENED@ == "tabs_opened"@,
        KEY_PAGES_LOADED@ == "pages_loaded"@,
        KEY_SEARCHES_RUN@ == "searches_run"@,
        KEY_BOOKMARKS_ADDED@ == "bookmarks_added"@,
        KEY_DOWNLOADS_COMPLETED@ == "downloads_completed"@,
{
}

/// What is written lists the counts above zero, each key once, in the layout
/// of the counter file.
pub proof fn law_file_is_laid_out(raw: Seq<u8>, counts: Map<Seq<char>, u64>)
    requires
        stores(raw, counts),
    ensures
        exists|pairs: Seq<(String, u64)>|
            raw == encode_utf8(#[trigger] pretty_object(pairs)) && counts_map(pairs) == nonzero(
                counts,
            ) && forall|a: int, b: int|
                0 <= a < b < pairs.len() ==> (#[trigger] pairs[a]).0@ != (#[trigger] pairs[b]).0@,
{
    let pairs = choose|pairs: Seq<(String, u64)>|
        distinct_keys(pairs) && counts_map(pairs) == nonzero(counts) && raw == encode_utf8(
            #[trigger] pretty_object(pairs),
        );
    assert(raw == encode_utf8(pretty_object(pairs)));
}

} // verus!
