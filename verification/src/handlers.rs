//! Decisions behind the browser callbacks.
//!
//! A callback gathers plain values, asks a function here what to do, and
//! performs the answer on the browser and the stores.
use crate::download_notice::{DownloadNotice, DownloadNoticeKind};
use crate::path::{
    file_name, law_file_name_is_plain, law_last_name_is_found, path_file_name, plain_name,
    separators,
};
use crate::platform::Platform;
use crate::text::{is_empty_text, push_str, trim, trimmed, white_space};
use crate::text_laws::law_trimming;
use std::collections::HashMap;
use vstd::prelude::*;

verus! {

/// How a page was reached.
#[derive(Debug, Clone, Copy, PartialEq, Eq, Structural)]
pub enum Transition {
    Link,
    Reload,
    FormSubmit,
    Generated,
    Other,
}

/// Low byte of a transition value: where the navigation came from. The bits
/// above it qualify the navigation.
pub const TT_SOURCE_MASK: u32 = 0xFF;

pub const TT_LINK: u32 = 0;

pub const TT_GENERATED: u32 = 5;

pub const TT_FORM_SUBMIT: u32 = 7;

pub const TT_RELOAD: u32 = 8;

pub const TT_KEYWORD: u32 = 9;

pub const TT_KEYWORD_GENERATED: u32 = 10;

/// The transition for a source.
pub open spec fn transition_of(source: u32) -> Transition {
    if source == TT_RELOAD {
        Transition::Reload
    } else if source == TT_FORM_SUBMIT {
        Transition::FormSubmit
    } else if source == TT_GENERATED || source == TT_KEYWORD || source == TT_KEYWORD_GENERATED {
        Transition::Generated
    } else if source == TT_LINK {
        Transition::Link
    } else {
        Transition::Other
    }
}

/// Decode a transition value. Qualifier bits have no effect.
pub fn decode_transition_raw(raw: u32) -> (r: Transition)
    ensures
        r == transition_of(raw & TT_SOURCE_MASK),
        r == transition_of(raw % 256),
{
    let source: u32 = raw & TT_SOURCE_MASK;
    assert(raw & 0xFF == raw % 256) by (bit_vector);
    if source == TT_RELOAD {
        Transition::Reload
    } else if source == TT_FORM_SUBMIT {
        Transition::FormSubmit
    } else if source == TT_GENERATED || source == TT_KEYWORD || source == TT_KEYWORD_GENERATED {
        Transition::Generated
    } else if source == TT_LINK {
        Transition::Link
    } else {
        Transition::Other
    }
}

/// Qualifier bits never change the transition.
pub proof fn law_qualifiers_are_stripped(raw: u32, flags: u32)
    requires
        flags & TT_SOURCE_MASK == 0,
    ensures
        transition_of((raw | flags) & TT_SOURCE_MASK) == transition_of(raw & TT_SOURCE_MASK),
{
    assert(flags & 0xFF == 0 ==> (raw | flags) & 0xFF == raw & 0xFF) by (bit_vector);
}

/// Transitions of the loads that are under way, by browser.
#[derive(Debug)]
pub struct PendingTransitions {
    map: HashMap<i32, Transition>,
}

impl PendingTransitions {
    /// The transition of each browser's load.
    pub closed spec fn loads(self) -> Map<i32, Transition> {
        self.map@
    }

    /// No load under way.
    pub fn new() -> (r: Self)
        ensures
            r.loads() == Map::<i32, Transition>::empty(),
    {
        let r = PendingTransitions { map: HashMap::new() };
        assert(r.loads() =~= Map::empty());
        r
    }

    /// A load began. Only the main frame counts.
    pub fn load_started(&mut self, browser_id: i32, main_frame: bool, raw: u32)
        ensures
            final(self).loads() == if main_frame {
                old(self).loads().insert(browser_id, transition_of(raw & TT_SOURCE_MASK))
            } else {
                old(self).loads()
            },
    {
        broadcast use vstd::std_specs::hash::group_hash_axioms;

        if main_frame {
            self.map.insert(browser_id, decode_transition_raw(raw));
        }
    }

    /// The main frame was loaded. Returns how the page was reached, and
    /// forgets it; a load that was not seen to begin counts as a link.
    pub fn load_ended(&mut self, browser_id: Option<i32>) -> (r: Transition)
        ensures
            match browser_id {
                Some(id) => {
                    &&& r == if old(self).loads().contains_key(id) {
                        old(self).loads()[id]
                    } else {
                        Transition::Link
                    }
                    &&& final(self).loads() == old(self).loads().remove(id)
                },
                None => r == Transition::Link && final(self).loads() == old(self).loads(),
            },
    {
        broadcast use vstd::std_specs::hash::group_hash_axioms;

        match browser_id {
            Some(id) => match self.map.remove(&id) {
                Some(t) => t,
                None => {
                    assert(self.loads() =~= old(self).loads().remove(id));
                    Transition::Link
                },
            },
            None => Transition::Link,
        }
    }
}

/// The name under which a download is stored.
pub open spec fn safe_name(platform: Platform, name: Seq<char>) -> Seq<char> {
    match file_name(platform, trimmed(name)) {
        Some(f) => f,
        None => "download"@,
    }
}

/// Reduce a suggested file name to the last part of its path, by the rules of
/// the platform; `download` if there is none.
pub fn sanitise_filename(platform: Platform, name: &str) -> (r: String)
    ensures
        r@ == safe_name(platform, name@),
        plain_name(separators(platform, trimmed(name@)), r@),
{
    proof {
        law_safe_name_is_plain(platform, name@);
    }
    let text = trim(name);
    match path_file_name(platform, text.as_str()) {
        Some(f) => f,
        None => "download".to_owned(),
    }
}

/// Whatever name is suggested, the stored name is one part of a path.
pub proof fn law_safe_name_is_plain(platform: Platform, name: Seq<char>)
    ensures
        plain_name(separators(platform, trimmed(name)), safe_name(platform, name)),
{
    law_file_name_is_plain(platform, trimmed(name));
    reveal_strlit("download");
    reveal_strlit(".");
    reveal_strlit("..");
    assert("download"@.len() != "."@.len());
    assert("download"@.len() != ".."@.len());
}

/// How downloads are handled.
#[derive(Debug, Clone, Copy, PartialEq, Eq, Structural)]
pub struct DownloadPolicy {
    /// Ask for a path each time.
    pub ask_each_time: bool,
    /// Show notices in the chrome.
    pub show_notifications: bool,
    /// Open a file once it is there.
    pub open_on_finish: bool,
}

/// Notices belong to silent downloads: a save dialog is feedback enough.
pub open spec fn notifies(policy: DownloadPolicy) -> bool {
    !policy.ask_each_time && policy.show_notifications
}

/// A notice under this policy, if there is one.
pub open spec fn notice_for(
    policy: DownloadPolicy,
    kind: DownloadNoticeKind,
    filename: Seq<char>,
    path: Seq<char>,
    now: u64,
    r: Option<DownloadNotice>,
) -> bool {
    match r {
        Some(n) => notifies(policy) && n.kind == kind && n.filename@ == filename && n.path@ == path
            && n.created_at == now,
        None => !notifies(policy),
    }
}

/// A byte count as the browser reports it: nothing known below one.
pub open spec fn known_total(total: i64) -> Option<u64> {
    if total > 0 {
        Some(total as u64)
    } else {
        None
    }
}

/// What to do when a download begins.
#[derive(Debug, Clone, PartialEq, Eq)]
pub struct BeforeDownload {
    /// MIME type, if the server sent one.
    pub mime: Option<String>,
    /// Size, if it is known.
    pub total: Option<u64>,
    /// Whether to ask for a path.
    pub show_dialog: bool,
    /// Notice to queue.
    pub notice: Option<DownloadNotice>,
}

/// Notice under this policy.
fn make_notice(
    policy: DownloadPolicy,
    kind: DownloadNoticeKind,
    filename: &str,
    path: &str,
    now: u64,
) -> (r: Option<DownloadNotice>)
    ensures
        notice_for(policy, kind, filename@, path@, now, r),
{
    if !policy.ask_each_time && policy.show_notifications {
        Some(
            DownloadNotice {
                kind,
                filename: filename.to_owned(),
                path: path.to_owned(),
                created_at: now,
            },
        )
    } else {
        None
    }
}

/// Decide about a download that begins: `suggested` is the server's name for
/// it and `target` the path chosen for it.
pub fn before_download(
    policy: DownloadPolicy,
    suggested: &str,
    mime: &str,
    total: i64,
    target: &str,
    now: u64,
) -> (r: BeforeDownload)
    ensures
        match r.mime {
            Some(m) => mime@.len() > 0 && m@ == mime@,
            None => mime@.len() == 0,
        },
        r.total == known_total(total),
        r.show_dialog == policy.ask_each_time,
        notice_for(policy, DownloadNoticeKind::Started, suggested@, target@, now, r.notice),
{
    BeforeDownload {
        mime: if is_empty_text(mime) {
            None
        } else {
            Some(mime.to_owned())
        },
        total: if total > 0 {
            Some(total as u64)
        } else {
            None
        },
        show_dialog: policy.ask_each_time,
        notice: make_notice(policy, DownloadNoticeKind::Started, suggested, target, now),
    }
}

/// A progress report of the browser on one download.
#[derive(Debug, Clone, PartialEq, Eq)]
pub struct DownloadProgress {
    pub received: i64,
    pub total: i64,
    pub complete: bool,
    pub canceled: bool,
    pub interrupted: bool,
    /// Path of the finished file.
    pub full_path: String,
    /// Why the transfer was interrupted.
    pub interrupt_code: String,
}

/// What to do on a progress report.
#[derive(Debug, Clone, PartialEq, Eq)]
pub enum DownloadTick {
    /// The download already ended.
    Ignore,
    /// Record the file, and once that is done count it, queue the notice and
    /// open the file if asked.
    Completed { path: String, notice: Option<DownloadNotice>, open: bool },
    /// Record that the user cancelled it.
    Canceled,
    /// Record the failure and queue the notice.
    Failed { reason: String, notice: Option<DownloadNotice> },
    /// Record the progress.
    Progress { received: u64, total: Option<u64> },
}

/// The text recorded for an interrupted transfer.
pub open spec fn interrupt_text(code: Seq<char>) -> Seq<char> {
    "interrupted (code "@ + code + ")"@
}

/// Decide about a progress report. `in_flight` tells whether the download is
/// still recorded as running, `name` is its suggested file name. Completion
/// comes before cancellation and cancellation before interruption.
pub fn download_tick(
    policy: DownloadPolicy,
    in_flight: bool,
    name: &str,
    p: &DownloadProgress,
    now: u64,
) -> (r: DownloadTick)
    ensures
        match r {
            DownloadTick::Ignore => !in_flight,
            DownloadTick::Completed { path, notice, open } => in_flight && p.complete && path@
                == p.full_path@ && notice_for(
                policy,
                DownloadNoticeKind::Completed,
                name@,
                p.full_path@,
                now,
                notice,
            ) && open == (policy.open_on_finish && p.full_path@.len() > 0),
            DownloadTick::Canceled => in_flight && !p.complete && p.canceled,
            DownloadTick::Failed { reason, notice } => in_flight && !p.complete && !p.canceled
                && p.interrupted && reason@ == interrupt_text(p.interrupt_code@) && notice_for(
                policy,
                DownloadNoticeKind::Failed,
                name@,
                Seq::empty(),
                now,
                notice,
            ),
            DownloadTick::Progress { received, total } => in_flight && !p.complete && !p.canceled
                && !p.interrupted && received == (if p.received > 0 {
                p.received as int
            } else {
                0
            }) && total == known_total(p.total),
        },
{
    if !in_flight {
        return DownloadTick::Ignore;
    }
    if p.complete {
        return DownloadTick::Completed {
            path: p.full_path.clone(),
            notice: make_notice(
                policy,
                DownloadNoticeKind::Completed,
                name,
                p.full_path.as_str(),
                now,
            ),
            open: policy.open_on_finish && !is_empty_text(p.full_path.as_str()),
        };
    }
    if p.canceled {
        return DownloadTick::Canceled;
    }
    if p.interrupted {
        let mut reason = "interrupted (code ".to_owned();
        push_str(&mut reason, p.interrupt_code.as_str());
        push_str(&mut reason, ")");
        proof {
            reveal_strlit("");
            assert(""@ =~= Seq::<char>::empty());
        }
        return DownloadTick::Failed {
            reason,
            notice: make_notice(policy, DownloadNoticeKind::Failed, name, "", now),
        };
    }
    DownloadTick::Progress {
        received: if p.received > 0 {
            p.received as u64
        } else {
            0
        },
        total: if p.total > 0 {
            Some(p.total as u64)
        } else {
            None
        },
    }
}

/// A stored answer to a permission request.
#[derive(Debug, Clone, Copy, PartialEq, Eq, Structural)]
pub enum Decision {
    Allow,
    Deny,
}

/// What to do with a permission request.
#[derive(Debug, Clone, Copy, PartialEq, Eq, Structural)]
pub enum PermissionStep {
    /// Nothing in it is known: turn it away.
    Dismiss,
    /// Grant it.
    Allow,
    /// Refuse it.
    Deny,
    /// Queue it for the user.
    Ask,
}

/// Decide about a permission request. `recognised` tells whether any of the
/// requested permissions is known; `stored` is the stored answer, or an error
/// if the store could not be read, in which case the user is asked.
pub fn permission_step(recognised: bool, stored: Result<Option<Decision>, ()>) -> (r: PermissionStep)
    ensures
        r == if !recognised {
            PermissionStep::Dismiss
        } else if stored == Ok::<Option<Decision>, ()>(Some(Decision::Allow)) {
            PermissionStep::Allow
        } else if stored == Ok::<Option<Decision>, ()>(Some(Decision::Deny)) {
            PermissionStep::Deny
        } else {
            PermissionStep::Ask
        },
{
    if !recognised {
        return PermissionStep::Dismiss;
    }
    match stored {
        Ok(Some(Decision::Allow)) => PermissionStep::Allow,
        Ok(Some(Decision::Deny)) => PermissionStep::Deny,
        Ok(None) => PermissionStep::Ask,
        Err(_) => PermissionStep::Ask,
    }
}

/// The low byte of a transition value decides, whatever the bits above it say:
/// each source has its transition, and any other source is something else.
pub proof fn law_sources_decide(raw: u32)
    ensures
        ({
            let t = transition_of(raw & TT_SOURCE_MASK);
            let source = raw % 256;
            &&& t == Transition::Link <==> source == 0
            &&& t == Transition::Generated <==> source == 5 || source == 9 || source == 10
            &&& t == Transition::FormSubmit <==> source == 7
            &&& t == Transition::Reload <==> source == 8
            &&& t == Transition::Other <==> source != 0 && source != 5 && source != 7 && source != 8
                && source != 9 && source != 10
        }),
{
    assert(raw & 0xFF == raw % 256) by (bit_vector);
}

/// A download is stored under the file name at the end of what is suggested,
/// white space around it aside, or as `download` if there is none.
pub proof fn law_download_name(platform: Platform, name: Seq<char>)
    ensures
        file_name(platform, trimmed(name)) is Some ==> safe_name(platform, name) == file_name(
            platform,
            trimmed(name),
        )->0,
        file_name(platform, trimmed(name)) is None ==> safe_name(platform, name) == "download"@,
{
}

/// Whatever directories are suggested, the file name alone is kept: of `dir`
/// and `base`, with white space around them, only `base` is left.
pub proof fn law_directories_are_dropped(
    platform: Platform,
    before: Seq<char>,
    dir: Seq<char>,
    base: Seq<char>,
    after: Seq<char>,
)
    requires
        platform != Platform::Windows,
        forall|i: int| 0 <= i < before.len() ==> white_space(#[trigger] before[i]),
        forall|i: int| 0 <= i < after.len() ==> white_space(#[trigger] after[i]),
        dir.len() > 0 ==> !white_space(dir[0]) && dir[dir.len() - 1] == '/',
        base.len() > 0,
        !white_space(base[0]),
        !white_space(base[base.len() - 1]),
        forall|i: int| 0 <= i < base.len() ==> #[trigger] base[i] != '/',
        base != "."@,
        base != ".."@,
    ensures
        safe_name(platform, before + (dir + base) + after) == base,
{
    let core = dir + base;
    assert(core[core.len() - 1] == base[base.len() - 1]);
    assert(core[0] == if dir.len() > 0 {
        dir[0]
    } else {
        base[0]
    });
    law_trimming(before, core, after);
    law_last_name_is_found(crate::path::Separators::Slash, dir, base);
}

/// A notice is shown for a silent download if notices are on, and says what
/// happened to which file and when; there is none otherwise.
pub proof fn law_notices_follow_the_policy(
    policy: DownloadPolicy,
    kind: DownloadNoticeKind,
    filename: Seq<char>,
    path: Seq<char>,
    now: u64,
    r: Option<DownloadNotice>,
)
    requires
        notice_for(policy, kind, filename, path, now, r),
    ensures
        r is Some <==> !policy.ask_each_time && policy.show_notifications,
        r matches Some(n) ==> n.kind == kind && n.filename@ == filename && n.path@ == path
            && n.created_at == now,
{
}

/// A size is known if it is above zero.
pub proof fn law_known_sizes(total: i64)
    ensures
        known_total(total) is Some <==> total > 0,
        total > 0 ==> known_total(total)->0 == total,
{
}

/// The reason recorded for an interruption names its code.
pub proof fn law_interruption_names_the_code(code: Seq<char>)
    ensures
        interrupt_text(code) == "interrupted (code "@ + code + ")"@,
{
}

} // verus!
