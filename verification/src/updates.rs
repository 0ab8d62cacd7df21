//! Update checks: the latest release, its cache, and what to tell the user.
//!
//! The checker asks for one URL, and only if checks are switched on. The
//! embedder decodes the reply and keeps the cache file; what is shown and what
//! goes into the cache is decided here. A dismissed version stays in the cache
//! as what was last reported and is filtered when the status is worked out.
use crate::clock::{elapsed, hours_passed, Timestamp};
use crate::text::{push_str, slice_string, to_chars};
use crate::version::{newer, version_parts, Version, VersionValue};
use vstd::prelude::*;

verus! {

/// Version of this library.
pub const VERSION: &'static str = "0.3.0";

/// Sent with every request.
pub const USER_AGENT: &'static str = "buffr/0.3.0";

/// Repository whose releases are followed.
pub const DEFAULT_GITHUB_REPO: &'static str = "kryptic-sh/buffr";

/// Hours between checks.
pub const DEFAULT_CHECK_INTERVAL_HOURS: u32 = 24;

/// Release channel.
pub const DEFAULT_CHANNEL: &'static str = "stable";

/// How updates are checked.
#[derive(Debug, Clone, PartialEq, Eq)]
pub struct UpdateConfig {
    pub enabled: bool,
    pub channel: String,
    pub check_interval_hours: u32,
    pub github_repo: String,
}

impl Default for UpdateConfig {
    fn default() -> (r: Self)
        ensures
            r.enabled,
            r.channel@ == DEFAULT_CHANNEL@,
            r.check_interval_hours == DEFAULT_CHECK_INTERVAL_HOURS,
            r.github_repo@ == DEFAULT_GITHUB_REPO@,
            r.channel@ == "stable"@,
            r.check_interval_hours == 24,
            r.github_repo@ == "kryptic-sh/buffr"@,
    {
        UpdateConfig {
            enabled: true,
            channel: DEFAULT_CHANNEL.to_owned(),
            check_interval_hours: DEFAULT_CHECK_INTERVAL_HOURS,
            github_repo: DEFAULT_GITHUB_REPO.to_owned(),
        }
    }
}

/// A release as it is remembered.
#[derive(Debug, PartialEq, Eq)]
pub struct ReleaseInfo {
    pub version: Version,
    pub tag: String,
    pub published_at: Timestamp,
    pub url: String,
    /// Release notes, possibly empty.
    pub body: String,
}

/// Mathematical value of a [`ReleaseInfo`].
#[verifier::ext_equal]
pub struct ReleaseValue {
    pub version: VersionValue,
    pub tag: Seq<char>,
    pub published_at: Timestamp,
    pub url: Seq<char>,
    pub body: Seq<char>,
}

impl View for ReleaseInfo {
    type V = ReleaseValue;

    open spec fn view(&self) -> ReleaseValue {
        ReleaseValue {
            version: self.version@,
            tag: self.tag@,
            published_at: self.published_at,
            url: self.url@,
            body: self.body@,
        }
    }
}

impl Clone for ReleaseInfo {
    fn clone(&self) -> (r: Self)
        ensures
            r@ == self@,
    {
        ReleaseInfo {
            version: self.version.clone(),
            tag: self.tag.clone(),
            published_at: self.published_at,
            url: self.url.clone(),
            body: self.body.clone(),
        }
    }
}

/// Result of a check.
#[derive(Debug, PartialEq, Eq)]
pub enum UpdateStatus {
    /// Nothing newer, or the newer release was dismissed.
    UpToDate { current: Version },
    /// A newer release exists.
    Available { current: Version, latest: ReleaseInfo },
    /// Checks are switched off.
    Disabled,
    /// The check failed; one line for the user.
    NetworkError(String),
    /// A newer release was seen, but longer ago than the check interval.
    Stale { last_checked: Timestamp, latest: ReleaseInfo },
}

/// Mathematical value of an [`UpdateStatus`].
#[verifier::ext_equal]
pub enum StatusValue {
    UpToDate { current: VersionValue },
    Available { current: VersionValue, latest: ReleaseValue },
    Disabled,
    NetworkError(Seq<char>),
    Stale { last_checked: Timestamp, latest: ReleaseValue },
}

impl View for UpdateStatus {
    type V = StatusValue;

    open spec fn view(&self) -> StatusValue {
        match *self {
            UpdateStatus::UpToDate { current } => StatusValue::UpToDate { current: current@ },
            UpdateStatus::Available { current, latest } => StatusValue::Available {
                current: current@,
                latest: latest@,
            },
            UpdateStatus::Disabled => StatusValue::Disabled,
            UpdateStatus::NetworkError(e) => StatusValue::NetworkError(e@),
            UpdateStatus::Stale { last_checked, latest } => StatusValue::Stale {
                last_checked,
                latest: latest@,
            },
        }
    }
}

/// What is kept between sessions.
#[derive(Debug, PartialEq, Eq)]
pub struct CacheFile {
    /// Time of the last successful check.
    pub last_checked: Option<Timestamp>,
    /// The release that it reported.
    pub latest: Option<ReleaseInfo>,
    /// Versions that the user dismissed.
    pub dismissed: Vec<Version>,
}

/// Mathematical value of a [`CacheFile`].
#[verifier::ext_equal]
pub struct CacheValue {
    pub last_checked: Option<Timestamp>,
    pub latest: Option<ReleaseValue>,
    pub dismissed: Seq<VersionValue>,
}

/// Views of a list of versions.
pub open spec fn version_views(list: Seq<Version>) -> Seq<VersionValue> {
    Seq::new(list.len(), |i: int| list[i]@)
}

impl View for CacheFile {
    type V = CacheValue;

    open spec fn view(&self) -> CacheValue {
        CacheValue {
            last_checked: self.last_checked,
            latest: match self.latest {
                Some(r) => Some(r@),
                None => None,
            },
            dismissed: version_views(self.dismissed@),
        }
    }
}

/// A cache that holds nothing.
pub open spec fn empty_cache() -> CacheValue {
    CacheValue { last_checked: None, latest: None, dismissed: Seq::empty() }
}

impl Default for CacheFile {
    fn default() -> (r: Self)
        ensures
            r@ == empty_cache(),
    {
        let r = CacheFile { last_checked: None, latest: None, dismissed: Vec::new() };
        assert(r@ =~= empty_cache());
        r
    }
}

/// The cache, or an empty one if there is none or it could not be read.
pub open spec fn cache_or_empty(cache: Option<CacheFile>) -> CacheValue {
    match cache {
        Some(c) => c@,
        None => empty_cache(),
    }
}

/// A release as the server reports it.
#[derive(Debug, PartialEq, Eq)]
pub struct GithubRelease {
    pub tag_name: String,
    pub published_at: Timestamp,
    pub html_url: String,
    pub body: Option<String>,
}

/// What came of a request.
#[derive(Debug, PartialEq, Eq)]
pub enum Reply {
    /// The request failed.
    Transport(String),
    /// The body is not a release; with the decoder's message.
    Malformed(String),
    /// The body.
    Release(GithubRelease),
}

/// HTTP backend.
pub trait HttpClient: Send + Sync {
    /// Get `url` and return the body. Any failure is a message.
    fn get(&self, url: &str) -> Result<String, String>;
}

/// A tag without the leading `v`s.
pub open spec fn tag_version(tag: Seq<char>) -> Seq<char>
    decreases tag.len(),
{
    if tag.len() > 0 && tag[0] == 'v' {
        tag_version(tag.drop_first())
    } else {
        tag
    }
}

/// A tag without the leading `v`s.
fn strip_v(tag: &str) -> (r: String)
    ensures
        r@ == tag_version(tag@),
{
    let text = to_chars(tag);
    let n: usize = text.len();
    let mut i: usize = 0;
    assert(text@.skip(0) == text@);
    while i < n && text[i] == 'v'
        invariant
            i <= n == text@.len(),
            text@ == tag@,
            tag_version(tag@) == tag_version(text@.skip(i as int)),
        decreases n - i,
    {
        assert(text@.skip(i as int).drop_first() == text@.skip(i + 1));
        i += 1;
    }
    assert(text@.subrange(i as int, n as int) == text@.skip(i as int));
    slice_string(text.as_slice(), i, n)
}

/// A string as a developer would write it down: quoted and escaped.
pub uninterp spec fn debug_text(s: Seq<char>) -> Seq<char>;

/// The `Debug` form of a string. It is named; what is escaped in it is not
/// stated.
#[verifier::external_body]
fn debug_quoted(s: &str) -> (r: String)
    ensures
        r@ == debug_text(s@),
{
    format!("{s:?}")
}

/// The message for a tag that is not a version.
pub open spec fn bad_tag_text(tag: Seq<char>, error: Seq<char>) -> Seq<char> {
    "tag "@ + debug_text(tag) + " not semver: "@ + error
}

/// The request for the latest release of a repository.
pub open spec fn latest_url(repo: Seq<char>) -> Seq<char> {
    "https://api.github.com/repos/"@ + repo + "/releases/latest"@
}

/// What to tell the user about a release: nothing if it is not newer or was
/// dismissed.
pub open spec fn resolved(
    current: VersionValue,
    release: ReleaseValue,
    dismissed: Seq<VersionValue>,
    stale: bool,
    last_checked: Timestamp,
) -> StatusValue {
    if !newer(release.version, current) || dismissed.contains(release.version) {
        StatusValue::UpToDate { current }
    } else if stale {
        StatusValue::Stale { last_checked, latest: release }
    } else {
        StatusValue::Available { current, latest: release }
    }
}

/// The release that a server reports.
pub open spec fn release_of(g: GithubRelease, version: VersionValue) -> ReleaseValue {
    ReleaseValue {
        version,
        tag: g.tag_name@,
        published_at: g.published_at,
        url: g.html_url@,
        body: match g.body {
            Some(b) => b@,
            None => Seq::empty(),
        },
    }
}

/// The cache after a successful check.
pub open spec fn refreshed(cache: CacheValue, release: ReleaseValue, now: Timestamp) -> CacheValue {
    CacheValue { last_checked: Some(now), latest: Some(release), dismissed: cache.dismissed }
}

/// Whether a cache is older than the check interval. A cache without a time
/// is.
pub open spec fn is_old(last_checked: Option<Timestamp>, now: Timestamp, hours: u32) -> bool {
    match last_checked {
        Some(t) => elapsed(t, now) > hours * 3600 * 1_000_000_000,
        None => true,
    }
}

/// The status that a cache gives.
pub open spec fn cached_status(
    enabled: bool,
    hours: u32,
    current: VersionValue,
    cache: Option<CacheValue>,
    now: Timestamp,
) -> StatusValue {
    if !enabled {
        StatusValue::Disabled
    } else {
        match cache {
            Some(c) => match c.latest {
                Some(release) => resolved(
                    current,
                    release,
                    c.dismissed,
                    is_old(c.last_checked, now, hours),
                    match c.last_checked {
                        Some(t) => t,
                        None => now,
                    },
                ),
                None => StatusValue::UpToDate { current },
            },
            None => StatusValue::UpToDate { current },
        }
    }
}

/// The cache with one more dismissed version.
pub open spec fn with_dismissed(cache: CacheValue, version: VersionValue) -> CacheValue {
    if cache.dismissed.contains(version) {
        cache
    } else {
        CacheValue { dismissed: cache.dismissed.push(version), ..cache }
    }
}

/// Whether `list` holds `version`.
fn holds_version(list: &Vec<Version>, version: &Version) -> (r: bool)
    ensures
        r == version_views(list@).contains(version@),
{
    let mut i: usize = 0;
    while i < list.len()
        invariant
            i <= list@.len(),
            forall|k: int| 0 <= k < i ==> (#[trigger] list@[k])@ != version@,
        decreases list@.len() - i,
    {
        if list[i].same_as(version) {
            assert(version_views(list@)[i as int] == version@);
            return true;
        }
        i += 1;
    }
    assert forall|k: int| 0 <= k < version_views(list@).len() implies #[trigger] version_views(
        list@,
    )[k] != version@ by {
        assert(version_views(list@)[k] == list@[k]@);
    }
    false
}

/// The update checker.
pub struct UpdateChecker<C: HttpClient> {
    config: UpdateConfig,
    client: C,
    current: Version,
}

impl<C: HttpClient> UpdateChecker<C> {
    /// Whether checks are switched on.
    pub closed spec fn enabled(self) -> bool {
        self.config.enabled
    }

    /// Hours between checks.
    pub closed spec fn interval(self) -> u32 {
        self.config.check_interval_hours
    }

    /// The repository whose releases are followed.
    pub closed spec fn repo(self) -> Seq<char> {
        self.config.github_repo@
    }

    /// The client that asks for releases.
    pub closed spec fn backend(self) -> C {
        self.client
    }

    /// The running version.
    pub closed spec fn current_version(self) -> VersionValue {
        self.current@
    }

    /// A checker for this library's own version.
    pub fn new(config: UpdateConfig, client: C) -> (r: Self)
        ensures
            r.enabled() == config.enabled,
            r.interval() == config.check_interval_hours,
            r.repo() == config.github_repo@,
            r.backend() == client,
            r.current_version() == match version_parts(VERSION@) {
                Ok(p) => VersionValue { major: p.0, minor: p.1, patch: p.2, pre: p.3, build: p.4 },
                Err(_) => VersionValue {
                    major: 0,
                    minor: 0,
                    patch: 0,
                    pre: Seq::empty(),
                    build: Seq::empty(),
                },
            },
    {
        let current = match Version::parse(VERSION) {
            Ok(v) => v,
            Err(_) => Version::new(0, 0, 0),
        };
        Self::with_client_and_current(config, client, current)
    }

    /// A checker for any version.
    pub fn with_client_and_current(config: UpdateConfig, client: C, current: Version) -> (r: Self)
        ensures
            r.enabled() == config.enabled,
            r.interval() == config.check_interval_hours,
            r.repo() == config.github_repo@,
            r.backend() == client,
            r.current_version() == current@,
    {
        UpdateChecker { config, client, current }
    }

    /// The URL to ask. `None` if checks are switched off.
    pub fn request_url(&self) -> (r: Option<String>)
        ensures
            match r {
                Some(u) => self.enabled() && u@ == latest_url(self.repo()),
                None => !self.enabled(),
            },
    {
        if !self.config.enabled {
            return None;
        }
        let mut url = "https://api.github.com/repos/".to_owned();
        push_str(&mut url, self.config.github_repo.as_str());
        push_str(&mut url, "/releases/latest");
        Some(url)
    }

    /// Ask the client for the latest release and return its answer. The client
    /// is not called if checks are switched off.
    pub fn fetch(&self) -> (r: Option<Result<String, String>>)
        ensures
            r is Some <==> self.enabled(),
            self.enabled() ==> exists|url: &str, answer: Result<String, String>|
                url@ == latest_url(self.repo()) && #[trigger] call_ensures(
                    C::get,
                    (&self.backend(), url),
                    answer,
                ) && r == Some(answer),
    {
        match self.request_url() {
            Some(url) => {
                let address: &str = url.as_str();
                let answer = self.client.get(address);
                assert(call_ensures(C::get, (&self.backend(), address), answer));
                Some(answer)
            },
            None => None,
        }
    }

    /// The outcome of a check from what came of the request: the status, and
    /// the cache to store if the check succeeded.
    pub fn check_now(&self, reply: Reply, cache: Option<CacheFile>, now: Timestamp) -> (r: (
        UpdateStatus,
        Option<CacheFile>,
    ))
        ensures
            !self.enabled() ==> r.0@ == StatusValue::Disabled && r.1 is None,
            self.enabled() ==> match reply {
                Reply::Transport(e) => r.0@ == StatusValue::NetworkError(e@) && r.1 is None,
                Reply::Malformed(e) => r.0@ == StatusValue::NetworkError("parse: "@ + e@) && r.1
                    is None,
                Reply::Release(g) => match version_parts(tag_version(g.tag_name@)) {
                    Ok(p) => {
                        let release = release_of(
                            g,
                            VersionValue {
                                major: p.0,
                                minor: p.1,
                                patch: p.2,
                                pre: p.3,
                                build: p.4,
                            },
                        );
                        let before = cache_or_empty(cache);
                        &&& r.0@ == resolved(
                            self.current_version(),
                            release,
                            before.dismissed,
                            false,
                            now,
                        )
                        &&& r.1 is Some
                        &&& r.1->0@ == refreshed(before, release, now)
                    },
                    Err(e) => r.0@ == StatusValue::NetworkError(bad_tag_text(g.tag_name@, e)) && r.1
                        is None,
                },
            },
    {
        if !self.config.enabled {
            return (UpdateStatus::Disabled, None);
        }
        match reply {
            Reply::Transport(e) => (UpdateStatus::NetworkError(e), None),
            Reply::Malformed(e) => {
                let mut text = "parse: ".to_owned();
                push_str(&mut text, e.as_str());
                (UpdateStatus::NetworkError(text), None)
            },
            Reply::Release(g) => {
                let tag = strip_v(g.tag_name.as_str());
                let parsed = Version::parse(tag.as_str());
                self.check_release(parsed, g, cache, now)
            },
        }
    }

    /// The outcome of a check that reported release `g`, whose tag was parsed
    /// as `parsed`.
    pub fn check_release(
        &self,
        parsed: Result<Version, String>,
        g: GithubRelease,
        cache: Option<CacheFile>,
        now: Timestamp,
    ) -> (r: (UpdateStatus, Option<CacheFile>))
        ensures
            match parsed {
                Ok(v) => {
                    let release = release_of(g, v@);
                    let before = cache_or_empty(cache);
                    &&& r.0@ == resolved(
                        self.current_version(),
                        release,
                        before.dismissed,
                        false,
                        now,
                    )
                    &&& r.1 is Some
                    &&& r.1->0@ == refreshed(before, release, now)
                },
                Err(e) => r.0@ == StatusValue::NetworkError(bad_tag_text(g.tag_name@, e@)) && r.1 is None,
            },
    {
        let version = match parsed {
            Ok(v) => v,
            Err(e) => {
                let mut text = "tag ".to_owned();
                let tag = debug_quoted(g.tag_name.as_str());
                push_str(&mut text, tag.as_str());
                push_str(&mut text, " not semver: ");
                push_str(&mut text, e.as_str());
                return (UpdateStatus::NetworkError(text), None);
            },
        };
        let ghost value = release_of(g, version@);
        let release = ReleaseInfo {
            version,
            tag: g.tag_name,
            published_at: g.published_at,
            url: g.html_url,
            body: match g.body {
                Some(b) => b,
                None => String::new(),
            },
        };
        assert(release@ =~= value);
        let before = match cache {
            Some(c) => c,
            None => CacheFile::default(),
        };
        let kept = release.clone();
        let after = CacheFile {
            last_checked: Some(now),
            latest: Some(kept),
            dismissed: before.dismissed,
        };
        assert(after@ =~= refreshed(cache_or_empty(cache), value, now));
        let status = self.resolve_status(&release, &after.dismissed, false, now);
        (status, Some(after))
    }

    /// The status from the cache alone. `cache` is missing if there is no
    /// cache file or it could not be read; nothing is claimed then.
    pub fn check_cached(&self, cache: Option<CacheFile>, now: Timestamp) -> (r: UpdateStatus)
        ensures
            r@ == cached_status(
                self.enabled(),
                self.interval(),
                self.current_version(),
                match cache {
                    Some(c) => Some(c@),
                    None => None,
                },
                now,
            ),
    {
        if !self.config.enabled {
            return UpdateStatus::Disabled;
        }
        let c = match cache {
            Some(c) => c,
            None => return UpdateStatus::UpToDate { current: self.current.clone() },
        };
        let release = match c.latest {
            Some(r) => r,
            None => return UpdateStatus::UpToDate { current: self.current.clone() },
        };
        let stale = match c.last_checked {
            Some(t) => self.is_stale(t, now),
            None => true,
        };
        let checked = match c.last_checked {
            Some(t) => t,
            None => now,
        };
        self.resolve_status(&release, &c.dismissed, stale, checked)
    }

    /// The cache with `version` dismissed: it is not offered any more. A
    /// version is recorded once.
    pub fn dismiss(cache: Option<CacheFile>, version: &Version) -> (r: CacheFile)
        ensures
            r@ == with_dismissed(cache_or_empty(cache), version@),
    {
        let mut c = match cache {
            Some(c) => c,
            None => CacheFile::default(),
        };
        let ghost before = c@;
        if !holds_version(&c.dismissed, version) {
            let v = version.clone();
            let ghost list = c.dismissed@;
            c.dismissed.push(v);
            assert(version_views(c.dismissed@) =~= version_views(list).push(version@));
            assert(c@ =~= with_dismissed(before, version@));
        }
        c
    }

    /// Whether the last check is longer ago than the interval; a check exactly
    /// that long ago still counts.
    fn is_stale(&self, last_checked: Timestamp, now: Timestamp) -> (r: bool)
        ensures
            r == is_old(Some(last_checked), now, self.interval()),
            r == (elapsed(last_checked, now) > self.interval() * 3600 * 1_000_000_000),
    {
        hours_passed(last_checked, now, self.config.check_interval_hours)
    }

    fn resolve_status(
        &self,
        release: &ReleaseInfo,
        dismissed: &Vec<Version>,
        stale: bool,
        last_checked: Timestamp,
    ) -> (r: UpdateStatus)
        ensures
            r@ == resolved(
                self.current_version(),
                release@,
                version_views(dismissed@),
                stale,
                last_checked,
            ),
    {
        if !release.version.is_newer_than(&self.current) || holds_version(
            dismissed,
            &release.version,
        ) {
            return UpdateStatus::UpToDate { current: self.current.clone() };
        }
        if stale {
            return UpdateStatus::Stale { last_checked, latest: release.clone() };
        }
        UpdateStatus::Available { current: self.current.clone(), latest: release.clone() }
    }
}

/// A dismissed release is never offered from the cache, however old the cache
/// is.
pub proof fn law_dismissed_is_not_offered(
    hours: u32,
    current: VersionValue,
    cache: CacheValue,
    now: Timestamp,
)
    requires
        cache.latest is Some,
    ensures
        cached_status(
            true,
            hours,
            current,
            Some(with_dismissed(cache, cache.latest->0.version)),
            now,
        ) == (StatusValue::UpToDate { current }),
{
    let v = cache.latest->0.version;
    let d = with_dismissed(cache, v).dismissed;
    if !cache.dismissed.contains(v) {
        assert(d[d.len() - 1] == v);
    }
    assert(d.contains(v));
}

/// Dismissing records nothing twice and leaves what was last reported alone.
pub proof fn law_dismiss_is_idempotent(cache: CacheValue, version: VersionValue)
    ensures
        with_dismissed(with_dismissed(cache, version), version) == with_dismissed(cache, version),
        with_dismissed(cache, version).latest == cache.latest,
        with_dismissed(cache, version).last_checked == cache.last_checked,
        with_dismissed(cache, version).dismissed.contains(version),
{
    let d = with_dismissed(cache, version).dismissed;
    if !cache.dismissed.contains(version) {
        assert(d[d.len() - 1] == version);
    }
}

/// Within the check interval the cache tells what the check itself told.
pub proof fn law_cache_repeats_the_check(
    hours: u32,
    current: VersionValue,
    before: CacheValue,
    release: ReleaseValue,
    checked: Timestamp,
    now: Timestamp,
)
    requires
        elapsed(checked, now) <= hours * 3600 * 1_000_000_000,
    ensures
        cached_status(true, hours, current, Some(refreshed(before, release, checked)), now)
            == resolved(current, release, before.dismissed, false, checked),
{
}

/// After the check interval the cache offers nothing as current: what was
/// available becomes stale.
pub proof fn law_old_cache_is_stale(
    hours: u32,
    current: VersionValue,
    cache: CacheValue,
    now: Timestamp,
)
    requires
        is_old(cache.last_checked, now, hours),
    ensures
        !(cached_status(true, hours, current, Some(cache), now) is Available),
{
}

/// Switched off, the status is always that, whatever the cache holds.
pub proof fn law_disabled_short_circuits(
    hours: u32,
    current: VersionValue,
    cache: Option<CacheValue>,
    now: Timestamp,
)
    ensures
        cached_status(false, hours, current, cache, now) == StatusValue::Disabled,
{
}

/// A newer release that was not dismissed is offered from the cache as stale
/// if more than the check interval passed since it was seen, with the time at
/// which it was, and as available otherwise.
pub proof fn law_age_makes_stale(
    hours: u32,
    current: VersionValue,
    release: ReleaseValue,
    dismissed: Seq<VersionValue>,
    t: Timestamp,
    now: Timestamp,
)
    requires
        newer(release.version, current),
        !dismissed.contains(release.version),
    ensures
        cached_status(
            true,
            hours,
            current,
            Some(CacheValue { last_checked: Some(t), latest: Some(release), dismissed }),
            now,
        ) == if elapsed(t, now) > hours * 3600 * 1_000_000_000 {
            StatusValue::Stale { last_checked: t, latest: release }
        } else {
            StatusValue::Available { current, latest: release }
        },
{
}

/// Between two ordinary points in time the cache turns stale one nanosecond
/// after the interval: whatever the interval is, a check exactly that long ago
/// still counts and one longer ago does not.
pub proof fn law_interval_is_exact(
    hours: u32,
    current: VersionValue,
    release: ReleaseValue,
    dismissed: Seq<VersionValue>,
    t: Timestamp,
    now: Timestamp,
)
    requires
        newer(release.version, current),
        !dismissed.contains(release.version),
        t.nanos < 1_000_000_000,
        now.nanos < 1_000_000_000,
    ensures
        ({
            let cache = CacheValue { last_checked: Some(t), latest: Some(release), dismissed };
            let status = cached_status(true, hours, current, Some(cache), now);
            let passed = (now.secs - t.secs) * 1_000_000_000 + now.nanos - t.nanos;
            &&& passed > hours * 3_600_000_000_000 ==> status == (StatusValue::Stale {
                last_checked: t,
                latest: release,
            })
            &&& passed <= hours * 3_600_000_000_000 ==> status == (StatusValue::Available {
                current,
                latest: release,
            })
        }),
{
}

/// A newer release in a cache that does not say when it was seen is stale.
pub proof fn law_undated_cache_is_stale(
    hours: u32,
    current: VersionValue,
    release: ReleaseValue,
    dismissed: Seq<VersionValue>,
    now: Timestamp,
)
    requires
        newer(release.version, current),
        !dismissed.contains(release.version),
    ensures
        cached_status(
            true,
            hours,
            current,
            Some(CacheValue { last_checked: None, latest: Some(release), dismissed }),
            now,
        ) == (StatusValue::Stale { last_checked: now, latest: release }),
{
}

/// The cache offers nothing if it is missing, if it holds no release, or if
/// the release is not newer than the running version or was dismissed.
pub proof fn law_cache_offers_only_news(
    hours: u32,
    current: VersionValue,
    cache: CacheValue,
    now: Timestamp,
)
    ensures
        cached_status(true, hours, current, None, now) == (StatusValue::UpToDate { current }),
        cache.latest is None ==> cached_status(true, hours, current, Some(cache), now) == (
        StatusValue::UpToDate { current }),
        cache.latest is Some && !newer(cache.latest->0.version, current) ==> cached_status(
            true,
            hours,
            current,
            Some(cache),
            now,
        ) == (StatusValue::UpToDate { current }),
        cache.latest is Some && cache.dismissed.contains(cache.latest->0.version) ==> cached_status(
            true,
            hours,
            current,
            Some(cache),
            now,
        ) == (StatusValue::UpToDate { current }),
{
}

/// A check reports a release as available exactly if it is newer than the
/// running version and was not dismissed; what a check just saw is never
/// stale.
pub proof fn law_check_reports_news(
    current: VersionValue,
    release: ReleaseValue,
    dismissed: Seq<VersionValue>,
    now: Timestamp,
)
    ensures
        newer(release.version, current) && !dismissed.contains(release.version) ==> resolved(
            current,
            release,
            dismissed,
            false,
            now,
        ) == (StatusValue::Available { current, latest: release }),
        !newer(release.version, current) || dismissed.contains(release.version) ==> resolved(
            current,
            release,
            dismissed,
            false,
            now,
        ) == (StatusValue::UpToDate { current }),
{
}

/// A release is remembered as the server reported it, under the version that
/// its tag names; missing notes are empty notes.
pub proof fn law_release_is_remembered(g: GithubRelease, version: VersionValue)
    ensures
        release_of(g, version).version == version,
        release_of(g, version).tag == g.tag_name@,
        release_of(g, version).published_at == g.published_at,
        release_of(g, version).url == g.html_url@,
        g.body is Some ==> release_of(g, version).body == g.body->0@,
        g.body is None ==> release_of(g, version).body.len() == 0,
{
}

/// A check stores when it was made and what it saw, and keeps the dismissed
/// versions.
pub proof fn law_check_refreshes_the_cache(cache: CacheValue, release: ReleaseValue, now: Timestamp)
    ensures
        refreshed(cache, release, now).last_checked == Some(now),
        refreshed(cache, release, now).latest == Some(release),
        refreshed(cache, release, now).dismissed == cache.dismissed,
{
}

/// Dismissing adds the version at the end of the list unless the list holds
/// it, and changes nothing else.
pub proof fn law_dismissing_adds_the_version(cache: CacheValue, version: VersionValue)
    ensures
        with_dismissed(cache, version) == if cache.dismissed.contains(version) {
            cache
        } else {
            CacheValue {
                last_checked: cache.last_checked,
                latest: cache.latest,
                dismissed: cache.dismissed + seq![version],
            }
        },
{
}

/// A tag is some `v`s and then the version text, which does not begin with
/// one.
pub proof fn law_tag_is_v_and_version(tag: Seq<char>)
    ensures
        tag_version(tag).len() <= tag.len(),
        tag == tag.take(tag.len() - tag_version(tag).len()) + tag_version(tag),
        forall|i: int| 0 <= i < tag.len() - tag_version(tag).len() ==> #[trigger] tag[i] == 'v',
        tag_version(tag).len() > 0 ==> tag_version(tag)[0] != 'v',
    decreases tag.len(),
{
    if tag.len() > 0 && tag[0] == 'v' {
        let rest = tag.drop_first();
        law_tag_is_v_and_version(rest);
        let n = tag.len() - tag_version(tag).len();
        assert(tag =~= seq!['v'] + rest);
        assert(tag.take(n) =~= seq!['v'] + rest.take(n - 1));
        assert forall|i: int| 0 <= i < n implies #[trigger] tag[i] == 'v' by {
            if i > 0 {
                assert(rest[i - 1] == tag[i]);
            }
        }
    }
}

/// The address asked, and the message for a tag that is not a version.
pub proof fn law_update_texts(repo: Seq<char>, tag: Seq<char>, error: Seq<char>)
    ensures
        latest_url(repo) == "https://api.github.com/repos/"@ + repo + "/releases/latest"@,
        bad_tag_text(tag, error) == "tag "@ + debug_text(tag) + " not semver: "@ + error,
{
}

/// A cache is read off field by field, and a missing one is empty.
pub proof fn law_cache_is_read_off(c: CacheFile, i: int)
    ensures
        c@.last_checked == c.last_checked,
        c.latest is None <==> c@.latest is None,
        c.latest is Some ==> c@.latest == Some(c.latest->0@),
        c@.dismissed.len() == c.dismissed@.len(),
        0 <= i < c.dismissed@.len() ==> c@.dismissed[i] == c.dismissed@[i]@,
        cache_or_empty(Some(c)) == c@,
        cache_or_empty(None).last_checked is None,
        cache_or_empty(None).latest is None,
        cache_or_empty(None).dismissed.len() == 0,
{
}

/// A release and a status are read off field by field.
pub proof fn law_status_is_read_off(
    current: Version,
    latest: ReleaseInfo,
    last_checked: Timestamp,
    e: String,
)
    ensures
        latest@.version == latest.version@,
        latest@.tag == latest.tag@,
        latest@.published_at == latest.published_at,
        latest@.url == latest.url@,
        latest@.body == latest.body@,
        (UpdateStatus::UpToDate { current })@ == (StatusValue::UpToDate { current: current@ }),
        (UpdateStatus::Available { current, latest })@ == (StatusValue::Available {
            current: current@,
            latest: latest@,
        }),
        UpdateStatus::Disabled@ == StatusValue::Disabled,
        UpdateStatus::NetworkError(e)@ == StatusValue::NetworkError(e@),
        (UpdateStatus::Stale { last_checked, latest })@ == (StatusValue::Stale {
            last_checked,
            latest: latest@,
        }),
{
}

} // verus!
