//! Crash reports: local files, opt-in, never sent anywhere.
//!
//! The embedder's panic hook gathers what it knows about a panic and
//! [`build_report`] puts it together. The embedder also reads the report
//! directory and decodes the files; what is listed and what is purged is
//! decided here.
use crate::clock::{
    back, days_before, earlier, is_earlier, secs_before, Timestamp, CALENDAR_START,
};
use crate::text::{
    decimal, is_empty_text, lines, push_decimal, push_str, same_text, slice_string, split_lines, to_chars, views,
};
use vstd::prelude::*;

verus! {

/// One captured panic.
#[derive(Debug, PartialEq, Eq)]
pub struct CrashReport {
    pub timestamp: Timestamp,
    pub buffr_version: String,
    pub os: String,
    pub display_server: String,
    pub message: String,
    pub location: Option<String>,
    pub backtrace: Vec<String>,
}

/// What can go wrong with the report files.
#[derive(Debug, PartialEq, Eq)]
pub enum CrashError {
    /// A file or the directory could not be read or written.
    Io(String),
    /// A report could not be written as JSON.
    Json(String),
}

/// A file of the report directory: its name there, and the report in it if it could
/// be read and decoded.
#[derive(Debug, PartialEq, Eq)]
pub struct CrashFile {
    pub name: String,
    pub report: Option<CrashReport>,
}

/// Length of what follows the last dot of `name`, or its whole length.
pub open spec fn extension_len(name: Seq<char>) -> nat
    decreases name.len(),
{
    if name.len() == 0 || name.last() == '.' {
        0
    } else {
        1 + extension_len(name.drop_last())
    }
}

/// The extension of a file name: what follows its last dot. A dot at the very
/// start begins no extension.
pub open spec fn extension(name: Seq<char>) -> Option<Seq<char>> {
    let n = extension_len(name);
    if n + 1 < name.len() {
        Some(name.skip(name.len() - n))
    } else {
        None
    }
}

/// Report files end in `.json`.
pub open spec fn is_report_file(name: Seq<char>) -> bool {
    extension(name) == Some("json"@)
}

/// Whether the file of this name is a report file.
pub fn is_report(name: &str) -> (r: bool)
    ensures
        r == is_report_file(name@),
{
    let text = to_chars(name);
    let n: usize = text.len();
    let mut start: usize = n;
    assert(text@.take(start as int) == text@);
    while start > 0 && text[start - 1] != '.'
        invariant
            start <= n == text@.len(),
            text@ == name@,
            extension_len(name@) == (n - start) + extension_len(text@.take(start as int)),
        decreases start,
    {
        assert(text@.take(start as int).drop_last() == text@.take(start - 1));
        start -= 1;
    }
    if start < 2 {
        return false;
    }
    assert(extension_len(name@) == n - start);
    let ext = slice_string(text.as_slice(), start, n);
    assert(ext@ == name@.skip(start as int));
    same_text(ext.as_str(), "json")
}

/// The reports of the report files that could be decoded, in directory order.
pub open spec fn readable(files: Seq<CrashFile>) -> Seq<CrashReport>
    decreases files.len(),
{
    if files.len() == 0 {
        Seq::empty()
    } else {
        let rest = readable(files.drop_last());
        match files.last().report {
            Some(r) => if is_report_file(files.last().name@) {
                rest.push(r)
            } else {
                rest
            },
            None => rest,
        }
    }
}

/// Where a report goes in a list that has the newest first: after all that
/// are not older.
pub open spec fn place(list: Seq<CrashReport>, t: Timestamp) -> int
    decreases list.len(),
{
    if list.len() == 0 || earlier(list[0].timestamp, t) {
        0
    } else {
        1 + place(list.drop_first(), t)
    }
}

/// The reports with the newest first; reports of the same time keep their
/// order.
pub open spec fn newest_first(list: Seq<CrashReport>) -> Seq<CrashReport>
    decreases list.len(),
{
    if list.len() == 0 {
        Seq::empty()
    } else {
        let rest = newest_first(list.drop_last());
        rest.insert(place(rest, list.last().timestamp), list.last())
    }
}

/// No report is older than the one after it.
pub open spec fn is_newest_first(list: Seq<CrashReport>) -> bool {
    forall|i: int, j: int|
        0 <= i < j < list.len() ==> !earlier(
            (#[trigger] list[i]).timestamp,
            (#[trigger] list[j]).timestamp,
        )
}

/// The place of a report is inside the list or at its end; what stands before
/// it is not older, what stands after it is.
proof fn lemma_place(list: Seq<CrashReport>, t: Timestamp)
    requires
        is_newest_first(list),
    ensures
        0 <= place(list, t) <= list.len(),
        forall|i: int| 0 <= i < place(list, t) ==> !earlier((#[trigger] list[i]).timestamp, t),
        forall|i: int| place(list, t) <= i < list.len() ==> earlier((#[trigger] list[i]).timestamp, t),
    decreases list.len(),
{
    if list.len() > 0 {
        let rest = list.drop_first();
        if earlier(list[0].timestamp, t) {
            assert forall|i: int| 0 <= i < list.len() implies earlier(
                (#[trigger] list[i]).timestamp,
                t,
            ) by {
                if i > 0 {
                    assert(!earlier(list[0].timestamp, list[i].timestamp));
                }
            }
        } else {
            assert forall|i: int, j: int| 0 <= i < j < rest.len() implies !earlier(
                (#[trigger] rest[i]).timestamp,
                (#[trigger] rest[j]).timestamp,
            ) by {
                assert(rest[i] == list[i + 1] && rest[j] == list[j + 1]);
            }
            lemma_place(rest, t);
            assert forall|i: int| 0 <= i < place(list, t) implies !earlier(
                (#[trigger] list[i]).timestamp,
                t,
            ) by {
                if i > 0 {
                    assert(list[i] == rest[i - 1]);
                }
            }
            assert forall|i: int| place(list, t) <= i < list.len() implies earlier(
                (#[trigger] list[i]).timestamp,
                t,
            ) by {
                assert(list[i] == rest[i - 1]);
            }
        }
    }
}

/// A list of reports is shown with the newest first, and shows each report as
/// often as it was found.
pub proof fn law_newest_first(list: Seq<CrashReport>)
    ensures
        is_newest_first(newest_first(list)),
        newest_first(list).to_multiset() == list.to_multiset(),
        newest_first(list).len() == list.len(),
    decreases list.len(),
{
    broadcast use vstd::seq_lib::group_to_multiset_ensures;

    if list.len() > 0 {
        let rest = newest_first(list.drop_last());
        let last = list.last();
        law_newest_first(list.drop_last());
        lemma_place(rest, last.timestamp);
        let p = place(rest, last.timestamp);
        let r = rest.insert(p, last);
        assert forall|i: int, j: int| 0 <= i < j < r.len() implies !earlier(
            (#[trigger] r[i]).timestamp,
            (#[trigger] r[j]).timestamp,
        ) by {
            let a = if i < p {
                i
            } else {
                i - 1
            };
            let b = if j < p {
                j
            } else {
                j - 1
            };
            if i == p {
                assert(r[j] == rest[b]);
            } else if j == p {
                assert(r[i] == rest[a]);
            } else {
                assert(r[i] == rest[a] && r[j] == rest[b]);
            }
        }
        assert(list.drop_last().push(last) == list);
    }
}

/// Put `report` at its place.
fn insert_report(list: &mut Vec<CrashReport>, report: CrashReport)
    requires
        is_newest_first(old(list)@),
    ensures
        final(list)@ == old(list)@.insert(place(old(list)@, report.timestamp), report),
{
    let t = report.timestamp;
    let mut i: usize = 0;
    assert(list@.skip(0) == list@);
    while i < list.len() && !is_earlier(list[i].timestamp, t)
        invariant
            i <= list@.len(),
            list@ == old(list)@,
            place(list@, t) == i + place(list@.skip(i as int), t),
        decreases list@.len() - i,
    {
        assert(list@.skip(i as int)[0] == list@[i as int]);
        assert(list@.skip(i as int).drop_first() == list@.skip(i + 1));
        i += 1;
    }
    proof {
        if i < list@.len() {
            assert(list@.skip(i as int)[0] == list@[i as int]);
        }
    }
    list.insert(i, report);
}

/// The files whose report is older than the cutoff, by position.
pub open spec fn outdated(files: Seq<CrashFile>, cutoff: Timestamp) -> Seq<usize>
    decreases files.len(),
{
    if files.len() == 0 {
        Seq::empty()
    } else {
        let rest = outdated(files.drop_last(), cutoff);
        if is_outdated(files.last(), cutoff) {
            rest.push((files.len() - 1) as usize)
        } else {
            rest
        }
    }
}

/// Whether a file is a report file, could be decoded, and its report is older
/// than the cutoff.
pub open spec fn is_outdated(file: CrashFile, cutoff: Timestamp) -> bool {
    match file.report {
        Some(r) => is_report_file(file.name@) && earlier(r.timestamp, cutoff),
        None => false,
    }
}

/// The crash reporter: installs itself at most once.
#[derive(Debug, Clone, Copy, PartialEq, Eq, Structural)]
pub struct CrashReporter {
    installed: bool,
}

impl CrashReporter {
    /// Whether the panic hook is in place.
    pub closed spec fn is_installed(self) -> bool {
        self.installed
    }

    /// A reporter that is not installed.
    pub fn new() -> (r: Self)
        ensures
            !r.is_installed(),
    {
        CrashReporter { installed: false }
    }

    /// Whether an installation would do anything: the reporter is switched on
    /// and not in place yet. The report directory is only made in that case.
    pub fn needs_install(&self, enabled: bool) -> (r: bool)
        ensures
            r == (enabled && !self.is_installed()),
    {
        enabled && !self.installed
    }

    /// Install the reporter. `dir_ready` tells whether the report directory
    /// is there. `true` if the caller has to set the panic hook, which happens
    /// once; a reporter without a directory can be installed later.
    pub fn install(&mut self, enabled: bool, dir_ready: bool) -> (hook: bool)
        ensures
            hook == (enabled && !old(self).is_installed() && dir_ready),
            final(self).is_installed() == (old(self).is_installed() || hook),
    {
        if !enabled || self.installed || !dir_ready {
            return false;
        }
        self.installed = true;
        true
    }

    /// The reports of a directory, newest first. Other files and files that
    /// could not be decoded are passed over.
    pub fn list_crashes(files: Vec<CrashFile>) -> (r: Vec<CrashReport>)
        ensures
            r@ == newest_first(readable(files@)),
            is_newest_first(r@),
    {
        let ghost all = files@;
        let mut files = files;
        let mut found: Vec<CrashReport> = Vec::new();
        let ghost mut done: int = 0;
        assert(all.take(0) == Seq::<CrashFile>::empty());
        assert(all.skip(0) == all);
        while files.len() > 0
            invariant
                0 <= done <= all.len(),
                files@ == all.skip(done),
                found@ == newest_first(readable(all.take(done))),
                is_newest_first(found@),
            decreases files@.len(),
        {
            let file = files.remove(0);
            proof {
                assert(file == all[done]);
                assert(all.take(done + 1).drop_last() == all.take(done));
                assert(files@ =~= all.skip(done + 1));
            }
            let listed = is_report(file.name.as_str());
            if let Some(report) = file.report {
                if listed {
                    proof {
                        let before = readable(all.take(done));
                        assert(before.push(report).drop_last() == before);
                        law_newest_first(before.push(report));
                    }
                    insert_report(&mut found, report);
                }
            }
            proof {
                done = done + 1;
            }
        }
        assert(all.take(done) == all);
        found
    }

    /// The files to delete: those whose report is more than `days` days old,
    /// by position. Files that could not be decoded stay.
    pub fn purge_older_than(files: &Vec<CrashFile>, days: u32, now: Timestamp) -> (r: Vec<usize>)
        requires
            secs_before(now, days) >= CALENDAR_START,
        ensures
            r@ == outdated(files@, back(now, days)),
    {
        let limit = days_before(now, days);
        let mut out: Vec<usize> = Vec::new();
        let mut i: usize = 0;
        assert(files@.take(0) == Seq::<CrashFile>::empty());
        while i < files.len()
            invariant
                i <= files@.len(),
                limit == back(now, days),
                out@ == outdated(files@.take(i as int), limit),
            decreases files@.len() - i,
        {
            assert(files@.take(i + 1).drop_last() == files@.take(i as int));
            assert(files@.take(i + 1).last() == files@[i as int]);
            let listed = is_report(files[i].name.as_str());
            if let Some(report) = &files[i].report {
                if listed && is_earlier(report.timestamp, limit) {
                    out.push(i);
                }
            }
            i += 1;
        }
        assert(files@.take(files@.len() as int) == files@);
        out
    }
}

/// A file is purged if and only if it is outdated, so no file that could not
/// be decoded and no report of the last `days` days is ever deleted.
pub proof fn law_purge_spares_recent(files: Seq<CrashFile>, limit: Timestamp, i: int)
    requires
        0 <= i < files.len() <= usize::MAX,
    ensures
        outdated(files, limit).contains(i as usize) <==> is_outdated(files[i], limit),
    decreases files.len(),
{
    let rest = files.drop_last();
    let found = outdated(rest, limit);
    lemma_outdated_bound(rest, limit);
    let all = outdated(files, limit);
    let n = (files.len() - 1) as usize;
    if i < rest.len() {
        law_purge_spares_recent(rest, limit, i);
        assert(files[i] == rest[i]);
        if found.contains(i as usize) {
            let k = choose|k: int| 0 <= k < found.len() && found[k] == i as usize;
            assert(all[k] == i as usize);
        }
        if all.contains(i as usize) {
            let k = choose|k: int| 0 <= k < all.len() && all[k] == i as usize;
            assert(k < found.len() ==> found[k] == i as usize);
        }
    } else {
        if is_outdated(files[i], limit) {
            assert(all[found.len() as int] == i as usize);
        } else if all.contains(i as usize) {
            let k = choose|k: int| 0 <= k < all.len() && all[k] == i as usize;
            assert(found[k] < rest.len());
        }
    }
}

proof fn lemma_outdated_bound(files: Seq<CrashFile>, limit: Timestamp)
    requires
        files.len() <= usize::MAX,
    ensures
        forall|k: int|
            0 <= k < outdated(files, limit).len() ==> (#[trigger] outdated(files, limit)[k])
                < files.len(),
    decreases files.len(),
{
    if files.len() > 0 {
        let rest = outdated(files.drop_last(), limit);
        lemma_outdated_bound(files.drop_last(), limit);
        let all = outdated(files, limit);
        assert forall|k: int| 0 <= k < all.len() implies (#[trigger] all[k]) < files.len() by {
            if k < rest.len() {
                assert(all[k] == rest[k]);
            }
        }
    }
}

/// What a panic hook knows.
#[derive(Debug, PartialEq, Eq)]
pub struct PanicFacts {
    pub timestamp: Timestamp,
    pub version: String,
    pub os: String,
    pub arch: String,
    /// `XDG_SESSION_TYPE`, if it is set.
    pub session_type: Option<String>,
    /// Whether `WAYLAND_DISPLAY` is set.
    pub wayland_display: bool,
    /// Whether `DISPLAY` is set.
    pub x_display: bool,
    /// The panic message, if the payload is a string.
    pub payload: Option<String>,
    /// File, line and column of the panic.
    pub location: Option<(String, u32, u32)>,
    /// The stack trace as one text.
    pub backtrace: String,
}

/// The display server, as the environment tells it.
pub open spec fn display_server(
    session_type: Option<Seq<char>>,
    wayland_display: bool,
    x_display: bool,
) -> Seq<char> {
    match session_type {
        Some(s) => if s.len() > 0 {
            s
        } else {
            display_guess(wayland_display, x_display)
        },
        None => display_guess(wayland_display, x_display),
    }
}

/// The display server without a session type.
pub open spec fn display_guess(wayland_display: bool, x_display: bool) -> Seq<char> {
    if wayland_display {
        "wayland"@
    } else if x_display {
        "x11"@
    } else {
        "unknown"@
    }
}

/// `file:line:column`.
pub open spec fn location_text(file: Seq<char>, line: u32, column: u32) -> Seq<char> {
    file + ":"@ + decimal(line as nat) + ":"@ + decimal(column as nat)
}

/// The display server, as the environment tells it.
pub fn detect_display_server(
    session_type: &Option<String>,
    wayland_display: bool,
    x_display: bool,
) -> (r: String)
    ensures
        r@ == display_server(crate::host::text_view(*session_type), wayland_display, x_display),
{
    if let Some(s) = session_type {
        if !is_empty_text(s.as_str()) {
            return s.clone();
        }
    }
    if wayland_display {
        return "wayland".to_owned();
    }
    if x_display {
        return "x11".to_owned();
    }
    "unknown".to_owned()
}

/// The operating system and the processor, separated by a space.
pub fn detect_os(os: &str, arch: &str) -> (r: String)
    ensures
        r@ == os@ + " "@ + arch@,
{
    let mut out = os.to_owned();
    push_str(&mut out, " ");
    push_str(&mut out, arch);
    out
}

/// The message of a panic whose payload is a string, or a stand-in.
pub fn panic_message(payload: &Option<String>) -> (r: String)
    ensures
        r@ == match *payload {
            Some(s) => s@,
            None => "<non-string panic payload>"@,
        },
{
    match payload {
        Some(s) => s.clone(),
        None => "<non-string panic payload>".to_owned(),
    }
}

/// Put a crash report together.
pub fn build_report(facts: &PanicFacts) -> (r: CrashReport)
    ensures
        r.timestamp == facts.timestamp,
        r.buffr_version@ == facts.version@,
        r.os@ == facts.os@ + " "@ + facts.arch@,
        r.display_server@ == display_server(
            crate::host::text_view(facts.session_type),
            facts.wayland_display,
            facts.x_display,
        ),
        r.message@ == match facts.payload {
            Some(s) => s@,
            None => "<non-string panic payload>"@,
        },
        match (r.location, facts.location) {
            (Some(t), Some(l)) => t@ == location_text(l.0@, l.1, l.2),
            (None, None) => true,
            _ => false,
        },
        views(r.backtrace@) == lines(facts.backtrace@),
{
    let location = match &facts.location {
        Some(l) => {
            let mut out = l.0.clone();
            push_str(&mut out, ":");
            push_decimal(&mut out, l.1 as u64);
            push_str(&mut out, ":");
            push_decimal(&mut out, l.2 as u64);
            Some(out)
        },
        None => None,
    };
    CrashReport {
        timestamp: facts.timestamp,
        buffr_version: facts.version.clone(),
        os: detect_os(facts.os.as_str(), facts.arch.as_str()),
        display_server: detect_display_server(
            &facts.session_type,
            facts.wayland_display,
            facts.x_display,
        ),
        message: panic_message(&facts.payload),
        location,
        backtrace: split_lines(facts.backtrace.as_str()),
    }
}

/// Date and time in a report's file name, without colons so that every file
/// system takes it.
pub const STAMP_FORMAT: &'static str = "%Y-%m-%dT%H-%M-%S%.3fZ";

/// A point in UTC written after a format, if the calendar has it.
pub uninterp spec fn utc_text(secs: i64, nanos: u32, format: Seq<char>) -> Option<Seq<char>>;

/// `chrono::DateTime::from_timestamp` and `format`: the point in UTC written
/// after the format, `None` outside the calendar. The result is named; it is
/// made of digits, signs, dots and the letters of the format, so it is not
/// empty and holds no slash. Other formats are kept out, since one that is not
/// understood panics.
#[verifier::external_body]
fn format_utc(secs: i64, nanos: u32, format: &str) -> (r: Option<String>)
    requires
        format@ == STAMP_FORMAT@,
    ensures
        match r {
            Some(t) => utc_text(secs, nanos, format@) == Some(t@),
            None => utc_text(secs, nanos, format@) is None,
        },
        r matches Some(t) ==> t@.len() > 0 && forall|i: int|
            0 <= i < t@.len() ==> #[trigger] t@[i] != '/',
{
    let t = chrono::DateTime::from_timestamp(secs, nanos)?;
    Some(t.format(format).to_string())
}

/// The file name for a report whose time is written `stamp`.
pub open spec fn report_name(stamp: Seq<char>) -> Seq<char> {
    stamp + ".json"@
}

/// The file name for a report whose time is written `stamp`.
pub fn stamped_name(stamp: &str) -> (r: String)
    ensures
        r@ == report_name(stamp@),
{
    let mut out = stamp.to_owned();
    push_str(&mut out, ".json");
    out
}

/// The file name for a report of this time, under which it is listed again. It
/// holds no slash. `None` outside the calendar.
pub fn report_file_name(t: Timestamp) -> (r: Option<String>)
    ensures
        match (r, utc_text(t.secs, t.nanos, STAMP_FORMAT@)) {
            (Some(name), Some(stamp)) => name@ == report_name(stamp),
            (None, None) => true,
            _ => false,
        },
        r matches Some(name) ==> is_report_file(name@) && forall|i: int|
            0 <= i < name@.len() ==> #[trigger] name@[i] != '/',
{
    match format_utc(t.secs, t.nanos, STAMP_FORMAT) {
        Some(stamp) => {
            proof {
                law_written_reports_are_listed(stamp@);
                reveal_strlit(".json");
            }
            Some(stamped_name(stamp.as_str()))
        },
        None => None,
    }
}

/// A report is found again under the name it is written to.
pub proof fn law_written_reports_are_listed(stamp: Seq<char>)
    requires
        stamp.len() > 0,
    ensures
        is_report_file(report_name(stamp)),
{
    reveal_strlit(".json");
    reveal_strlit("json");
    let name = report_name(stamp);
    reveal_with_fuel(extension_len, 6);
    let a = name.drop_last();
    let b = a.drop_last();
    let c = b.drop_last();
    let d = c.drop_last();
    assert(name.last() == 'n' && a.last() == 'o' && b.last() == 's' && c.last() == 'j' && d.last()
        == '.');
    assert(extension_len(name) == 4);
    assert(name.skip(name.len() - 4) == "json"@);
}

/// The extension of a name is what follows its last dot, if the dot does not
/// start the name; a name without such a dot has none.
pub proof fn law_extension_follows_the_last_dot(stem: Seq<char>, ext: Seq<char>)
    requires
        forall|i: int| 0 <= i < ext.len() ==> #[trigger] ext[i] != '.',
    ensures
        stem.len() > 0 ==> extension(stem + seq!['.'] + ext) == Some(ext),
        extension(seq!['.'] + ext) is None,
        extension(ext) is None,
{
    let name = stem + seq!['.'] + ext;
    lemma_extension_len(stem + seq!['.'], ext);
    assert(name.skip(name.len() - ext.len()) =~= ext);
    lemma_extension_len(seq!['.'], ext);
    lemma_extension_len(Seq::empty(), ext);
    assert(Seq::empty() + ext =~= ext);
}

proof fn lemma_extension_len(front: Seq<char>, ext: Seq<char>)
    requires
        front.len() > 0 ==> front[front.len() - 1] == '.',
        forall|i: int| 0 <= i < ext.len() ==> #[trigger] ext[i] != '.',
    ensures
        extension_len(front + ext) == ext.len(),
    decreases ext.len(),
{
    if ext.len() == 0 {
        assert(front + ext =~= front);
    } else {
        let rest = ext.drop_last();
        assert forall|i: int| 0 <= i < rest.len() implies #[trigger] rest[i] != '.' by {
            assert(rest[i] == ext[i]);
        }
        lemma_extension_len(front, rest);
        assert((front + ext).last() == ext[ext.len() - 1]);
        assert((front + ext).drop_last() =~= front + rest);
    }
}

/// A file is a report file exactly if its name ends in `.json` and has
/// something before that.
pub proof fn law_report_files_end_in_json(name: Seq<char>)
    ensures
        is_report_file(name) <==> name.len() > 5 && name.skip(name.len() - 5) == ".json"@,
{
    reveal_strlit(".json");
    reveal_strlit("json");
    if name.len() > 5 && name.skip(name.len() - 5) == ".json"@ {
        let stem = name.take(name.len() - 5);
        law_extension_follows_the_last_dot(stem, "json"@);
        let tail = name.skip(name.len() - 5);
        assert(tail =~= seq!['.'] + "json"@);
        assert(name =~= stem + tail);
        assert(stem + tail =~= stem + seq!['.'] + "json"@);
    }
    if is_report_file(name) {
        lemma_dot_before_extension(name);
        let tail = name.skip(name.len() - 5);
        assert(name.skip(name.len() - 4) =~= "json"@);
        assert forall|i: int| 0 <= i < 5 implies tail[i] == ".json"@[i] by {
            if i > 0 {
                assert(tail[i] == name.skip(name.len() - 4)[i - 1]);
            }
        }
        assert(tail =~= ".json"@);
    }
}

proof fn lemma_dot_before_extension(name: Seq<char>)
    ensures
        extension_len(name) <= name.len(),
        extension_len(name) < name.len() ==> name[name.len() - extension_len(name) - 1] == '.',
    decreases name.len(),
{
    if name.len() > 0 && name.last() != '.' {
        lemma_dot_before_extension(name.drop_last());
    }
}

/// Exactly the report files whose report could be decoded are listed, in
/// directory order at first.
pub proof fn law_readable_reports(files: Seq<CrashFile>, file: CrashFile)
    ensures
        readable(Seq::empty()).len() == 0,
        readable(files + seq![file]) == if is_report_file(file.name@) && file.report is Some {
            readable(files) + seq![file.report->0]
        } else {
            readable(files)
        },
{
    assert((files + seq![file]).drop_last() =~= files);
    assert((files + seq![file]).last() == file);
}

/// In the list of reports no report is older than one after it.
pub proof fn law_listed_reports_get_older(list: Seq<CrashReport>, i: int, j: int)
    requires
        0 <= i < j < list.len(),
    ensures
        ({
            let a = newest_first(list)[i].timestamp;
            let b = newest_first(list)[j].timestamp;
            a.secs > b.secs || (a.secs == b.secs && a.nanos >= b.nanos)
        }),
{
    law_newest_first(list);
    let r = newest_first(list);
    assert(!earlier(r[i].timestamp, r[j].timestamp));
}

/// Reports of the same time keep the order in which they were found.
pub proof fn law_listing_is_stable(list: Seq<CrashReport>, t: Timestamp)
    ensures
        newest_first(list).filter(|r: CrashReport| r.timestamp == t) == list.filter(
            |r: CrashReport| r.timestamp == t,
        ),
    decreases list.len(),
{
    reveal(Seq::filter);
    let same = |r: CrashReport| r.timestamp == t;
    if list.len() > 0 {
        let front = list.drop_last();
        let last = list.last();
        let rest = newest_first(front);
        law_listing_is_stable(front, t);
        law_newest_first(front);
        lemma_place(rest, last.timestamp);
        let p = place(rest, last.timestamp);
        let head = rest.take(p);
        let tail = rest.skip(p);
        assert(rest =~= head + tail);
        assert(rest.insert(p, last) =~= head.push(last) + tail);
        Seq::filter_distributes_over_add(head, tail, same);
        Seq::filter_distributes_over_add(head.push(last), tail, same);
        assert(head.push(last).drop_last() =~= head);
        if last.timestamp == t {
            assert forall|i: int| 0 <= i < tail.len() implies !same(#[trigger] tail[i]) by {
                assert(tail[i] == rest[p + i]);
            }
            lemma_filter_none(tail, same);
            assert(head.filter(same) + tail.filter(same) =~= head.filter(same));
            assert(head.push(last).filter(same) == head.filter(same).push(last));
            assert(head.filter(same).push(last) + tail.filter(same) =~= rest.filter(same).push(
                last,
            ));
        } else {
            assert(head.push(last).filter(same) == head.filter(same));
        }
    }
}

proof fn lemma_filter_none(list: Seq<CrashReport>, pred: spec_fn(CrashReport) -> bool)
    requires
        forall|i: int| 0 <= i < list.len() ==> !pred(#[trigger] list[i]),
    ensures
        list.filter(pred).len() == 0,
    decreases list.len(),
{
    reveal(Seq::filter);
    if list.len() > 0 {
        let front = list.drop_last();
        assert forall|i: int| 0 <= i < front.len() implies !pred(#[trigger] front[i]) by {
            assert(front[i] == list[i]);
        }
        lemma_filter_none(front, pred);
    }
}

/// Purging picks, in order, exactly the report files whose report could be
/// decoded and is older than the given number of days; a report of exactly
/// that age stays.
pub proof fn law_purge_picks_old_reports(
    files: Seq<CrashFile>,
    days: u32,
    now: Timestamp,
    i: int,
)
    requires
        0 <= i < files.len() <= usize::MAX,
    ensures
        ({
            let limit = back(now, days);
            let all = outdated(files, limit);
            &&& all.contains(i as usize) <==> is_report_file(files[i].name@) && files[i].report
                is Some && ({
                let t = files[i].report->0.timestamp;
                t.secs < limit.secs || (t.secs == limit.secs && t.nanos < limit.nanos)
            })
            &&& forall|a: int, b: int| 0 <= a < b < all.len() ==> all[a] < all[b]
            &&& forall|a: int| 0 <= a < all.len() ==> (#[trigger] all[a]) < files.len()
        }),
{
    law_purge_spares_recent(files, back(now, days), i);
    lemma_outdated_bound(files, back(now, days));
    lemma_outdated_ascends(files, back(now, days));
}

proof fn lemma_outdated_ascends(files: Seq<CrashFile>, limit: Timestamp)
    requires
        files.len() <= usize::MAX,
    ensures
        forall|a: int, b: int|
            0 <= a < b < outdated(files, limit).len() ==> outdated(files, limit)[a] < outdated(
                files,
                limit,
            )[b],
    decreases files.len(),
{
    if files.len() > 0 {
        let front = files.drop_last();
        lemma_outdated_ascends(front, limit);
        lemma_outdated_bound(front, limit);
        let rest = outdated(front, limit);
        let all = outdated(files, limit);
        assert forall|a: int, b: int| 0 <= a < b < all.len() implies all[a] < all[b] by {
            assert(all[a] == rest[a]);
            if b < rest.len() {
                assert(all[b] == rest[b]);
            }
        }
    }
}

/// The session type names the display server; without one the first display
/// that is set does, Wayland before X.
pub proof fn law_display_server(session_type: Seq<char>, wayland: bool, x: bool)
    ensures
        session_type.len() > 0 ==> display_server(Some(session_type), wayland, x) == session_type,
        session_type.len() == 0 ==> display_server(Some(session_type), wayland, x)
            == display_server(None, wayland, x),
        display_server(None, true, x) == "wayland"@,
        display_server(None, false, true) == "x11"@,
        display_server(None, false, false) == "unknown"@,
{
}

/// A place in the source is its file, line and column between colons, and a
/// report's file is its time and `.json`.
pub proof fn law_report_texts(file: Seq<char>, line: u32, column: u32, stamp: Seq<char>)
    ensures
        location_text(file, line, column) == file + ":"@ + decimal(line as nat) + ":"@ + decimal(
            column as nat,
        ),
        report_name(stamp) == stamp + ".json"@,
        STAMP_FORMAT@ == "%Y-%m-%dT%H-%M-%S%.3fZ"@,
{
}

} // verus!
