use buffr_core::clock::Timestamp;
use buffr_core::updates::{
    CacheFile, GithubRelease, HttpClient, ReleaseInfo, Reply, UpdateChecker, UpdateConfig,
    UpdateStatus,
};
use buffr_core::version::Version;
use std::sync::Mutex;

struct MockClient {
    body: Result<String, String>,
    calls: Mutex<Vec<String>>,
}

impl HttpClient for &MockClient {
    fn get(&self, url: &str) -> Result<String, String> {
        self.calls.lock().unwrap().push(url.to_string());
        self.body.clone()
    }
}

fn ok(body: &str) -> MockClient {
    MockClient { body: Ok(body.into()), calls: Mutex::new(Vec::new()) }
}

fn err(msg: &str) -> MockClient {
    MockClient { body: Err(msg.into()), calls: Mutex::new(Vec::new()) }
}

fn release_json(tag: &str) -> String {
    format!(
        r#"{{
            "tag_name": "{tag}",
            "published_at": "2026-01-01T00:00:00Z",
            "html_url": "https://github.com/kryptic-sh/buffr/releases/tag/{tag}",
            "body": "changelog"
        }}"#
    )
}

const NOW: Timestamp = Timestamp { secs: 1_800_000_000, nanos: 0 };

fn hours_ago(hours: i64) -> Timestamp {
    Timestamp { secs: NOW.secs - hours * 3600, ..NOW }
}

fn v(text: &str) -> Version {
    Version::parse(text).unwrap()
}

/// A request and its decoded reply.
fn ask(chk: &UpdateChecker<&MockClient>) -> Reply {
    let body = match chk.fetch() {
        None => return Reply::Transport("not asked".into()),
        Some(Err(e)) => return Reply::Transport(e),
        Some(Ok(b)) => b,
    };
    let json: serde_json::Value = match serde_json::from_str(&body) {
        Ok(v) => v,
        Err(e) => return Reply::Malformed(e.to_string()),
    };
    let at = chrono::DateTime::parse_from_rfc3339(json["published_at"].as_str().unwrap()).unwrap();
    Reply::Release(GithubRelease {
        tag_name: json["tag_name"].as_str().unwrap().to_string(),
        published_at: Timestamp { secs: at.timestamp(), nanos: 0 },
        html_url: json["html_url"].as_str().unwrap().to_string(),
        body: json["body"].as_str().map(str::to_string),
    })
}

fn checker<'a>(client: &'a MockClient, current: &str, cfg: UpdateConfig) -> UpdateChecker<&'a MockClient> {
    UpdateChecker::with_client_and_current(cfg, client, v(current))
}

fn check(chk: &UpdateChecker<&MockClient>, cache: Option<CacheFile>) -> (UpdateStatus, Option<CacheFile>) {
    chk.check_now(ask(chk), cache, NOW)
}

fn disabled() -> UpdateConfig {
    UpdateConfig { enabled: false, ..UpdateConfig::default() }
}

#[test]
fn disabled_short_circuits_check_now() {
    let client = ok(&release_json("v9.9.9"));
    let chk = checker(&client, "0.0.1", disabled());
    let (status, cache) = check(&chk, None);
    assert!(matches!(status, UpdateStatus::Disabled));
    assert!(cache.is_none());
    assert_eq!(client.calls.lock().unwrap().len(), 0);
}

#[test]
fn disabled_short_circuits_check_cached() {
    let client = ok(&release_json("v9.9.9"));
    let chk = checker(&client, "0.0.1", disabled());
    let status = chk.check_cached(None, NOW);
    assert!(matches!(status, UpdateStatus::Disabled));
    assert_eq!(client.calls.lock().unwrap().len(), 0);
}

#[test]
fn check_now_reports_available_for_newer_release() {
    let client = ok(&release_json("v0.1.0"));
    let chk = checker(&client, "0.0.4", UpdateConfig::default());
    match check(&chk, None).0 {
        UpdateStatus::Available { current, latest } => {
            assert_eq!(current, v("0.0.4"));
            assert_eq!(latest.version, v("0.1.0"));
            assert_eq!(latest.tag, "v0.1.0");
        }
        other => panic!("expected Available, got {other:?}"),
    }
    assert_eq!(
        *client.calls.lock().unwrap(),
        vec!["https://api.github.com/repos/kryptic-sh/buffr/releases/latest"]
    );
}

#[test]
fn check_now_reports_up_to_date_when_equal() {
    let client = ok(&release_json("v0.1.0"));
    let chk = checker(&client, "0.1.0", UpdateConfig::default());
    match check(&chk, None).0 {
        UpdateStatus::UpToDate { current } => assert_eq!(current, v("0.1.0")),
        other => panic!("expected UpToDate, got {other:?}"),
    }
}

#[test]
fn semver_ordering_handles_rc() {
    let client = ok(&release_json("v0.1.0"));
    let chk = checker(&client, "0.1.0-rc.1", UpdateConfig::default());
    match check(&chk, None).0 {
        UpdateStatus::Available { latest, .. } => assert_eq!(latest.version, v("0.1.0")),
        other => panic!("expected Available, got {other:?}"),
    }
}

#[test]
fn semver_compares_0_0_4_lt_0_1_0_lt_1_0_0() {
    let a = v("0.0.4");
    let b = v("0.1.0");
    let c = v("1.0.0");
    assert!(b.is_newer_than(&a) && !a.is_newer_than(&b));
    assert!(c.is_newer_than(&b) && !b.is_newer_than(&c));
    let pre = v("0.1.0-rc.1");
    assert!(b.is_newer_than(&pre) && !pre.is_newer_than(&b));
}

#[test]
fn versions_order_as_semver_does() {
    let texts = [
        "0.0.1", "0.1.0", "1.0.0-alpha", "1.0.0-alpha.1", "1.0.0-alpha.beta", "1.0.0-beta",
        "1.0.0-beta.2", "1.0.0-beta.11", "1.0.0-rc.1", "1.0.0", "1.0.0+1", "1.0.0+02", "1.0.0+2",
        "1.0.0+build.7", "1.2.3-a+b", "18446744073709551615.0.0",
    ];
    for x in texts {
        for y in texts {
            let (a, b) = (semver::Version::parse(x).unwrap(), semver::Version::parse(y).unwrap());
            assert_eq!(v(x).is_newer_than(&v(y)), a > b, "{x} {y}");
            assert_eq!(v(x).same_as(&v(y)), a == b, "{x} {y}");
        }
        assert_eq!(v(x).to_string(), x);
    }
    assert_eq!(Version::new(1, 2, 3), v("1.2.3"));
}

#[test]
fn malformed_versions_say_why() {
    for text in ["", "1", "1.2", "a.b.c", "1.2.3-", "01.2.3"] {
        let expected = semver::Version::parse(text).unwrap_err().to_string();
        assert_eq!(Version::parse(text).unwrap_err(), expected);
    }
}

#[test]
fn check_cached_returns_stale_when_old() {
    let client = ok(&release_json("v0.1.0"));
    let chk = checker(&client, "0.0.1", UpdateConfig { check_interval_hours: 24, ..UpdateConfig::default() });
    let mut cache = check(&chk, None).1.unwrap();
    cache.last_checked = Some(hours_ago(48));
    match chk.check_cached(Some(cache), NOW) {
        UpdateStatus::Stale { latest, last_checked } => {
            assert_eq!(latest.version, v("0.1.0"));
            assert_eq!(last_checked, hours_ago(48));
        }
        other => panic!("expected Stale, got {other:?}"),
    }
}

#[test]
fn check_cached_returns_available_when_fresh() {
    let client = ok(&release_json("v0.1.0"));
    let chk = checker(&client, "0.0.1", UpdateConfig { check_interval_hours: 24, ..UpdateConfig::default() });
    let cache = check(&chk, None).1;
    match chk.check_cached(cache, NOW) {
        UpdateStatus::Available { latest, .. } => assert_eq!(latest.version, v("0.1.0")),
        other => panic!("expected Available, got {other:?}"),
    }
}

#[test]
fn network_error_is_returned_without_panic() {
    let client = err("connection refused");
    let chk = checker(&client, "0.0.1", UpdateConfig::default());
    match check(&chk, None).0 {
        UpdateStatus::NetworkError(msg) => assert!(msg.contains("connection refused")),
        other => panic!("expected NetworkError, got {other:?}"),
    }
}

#[test]
fn dismiss_filters_subsequent_lookups() {
    let client = ok(&release_json("v0.1.0"));
    let chk = checker(&client, "0.0.1", UpdateConfig::default());
    let (status, cache) = check(&chk, None);
    assert!(matches!(status, UpdateStatus::Available { .. }));
    let cache = UpdateChecker::<&MockClient>::dismiss(cache, &v("0.1.0"));
    assert_eq!(cache.dismissed, vec![v("0.1.0")]);
    let cache = UpdateChecker::<&MockClient>::dismiss(Some(cache), &v("0.1.0"));
    assert_eq!(cache.dismissed.len(), 1);
    match chk.check_cached(Some(cache), NOW) {
        UpdateStatus::UpToDate { current } => assert_eq!(current, v("0.0.1")),
        other => panic!("expected UpToDate after dismiss, got {other:?}"),
    }
    let cache = UpdateChecker::<&MockClient>::dismiss(None, &v("0.1.0"));
    let (status, cache) = check(&chk, Some(cache));
    assert!(matches!(status, UpdateStatus::UpToDate { .. }));
    assert_eq!(cache.unwrap().dismissed, vec![v("0.1.0")]);
}

#[test]
fn no_cache_file_returns_up_to_date() {
    let client = ok(&release_json("v0.1.0"));
    let chk = checker(&client, "0.0.1", UpdateConfig::default());
    assert!(matches!(chk.check_cached(None, NOW), UpdateStatus::UpToDate { .. }));
    assert!(matches!(
        chk.check_cached(Some(CacheFile::default()), NOW),
        UpdateStatus::UpToDate { .. }
    ));
}

#[test]
fn malformed_release_json_returns_network_error() {
    let client = ok("{ not really json");
    let chk = checker(&client, "0.0.1", UpdateConfig::default());
    match check(&chk, None).0 {
        UpdateStatus::NetworkError(msg) => assert!(msg.starts_with("parse: ")),
        other => panic!("expected NetworkError, got {other:?}"),
    }
}

#[test]
fn non_semver_tag_returns_network_error() {
    let client = ok(&release_json("nightly-banana"));
    let chk = checker(&client, "0.0.1", UpdateConfig::default());
    let (status, cache) = check(&chk, None);
    assert!(cache.is_none());
    match status {
        UpdateStatus::NetworkError(msg) => {
            let why = semver::Version::parse("nightly-banana").unwrap_err();
            assert_eq!(msg, format!("tag \"nightly-banana\" not semver: {why}"));
        }
        other => panic!("expected NetworkError, got {other:?}"),
    }
}

#[test]
fn every_leading_v_is_dropped() {
    let client = ok(&release_json("vvv1.0.0"));
    let chk = checker(&client, "0.0.1", UpdateConfig::default());
    match check(&chk, None).0 {
        UpdateStatus::Available { latest, .. } => {
            assert_eq!(latest.version, v("1.0.0"));
            assert_eq!(latest.tag, "vvv1.0.0");
            assert_eq!(latest.body, "changelog");
        }
        other => panic!("{other:?}"),
    }
}

#[test]
fn staleness_is_strict() {
    let client = ok("");
    let chk = checker(&client, "0.0.1", UpdateConfig::default());
    let cache = |at| CacheFile {
        last_checked: at,
        latest: Some(ReleaseInfo {
            version: v("1.0.0"),
            tag: "v1.0.0".into(),
            published_at: NOW,
            url: String::new(),
            body: String::new(),
        }),
        dismissed: Vec::new(),
    };
    let exact = cache(Some(hours_ago(24)));
    assert!(matches!(chk.check_cached(Some(exact), NOW), UpdateStatus::Available { .. }));
    let older = cache(Some(Timestamp { secs: NOW.secs - 24 * 3600 - 1, ..NOW }));
    assert!(matches!(chk.check_cached(Some(older), NOW), UpdateStatus::Stale { .. }));
    match chk.check_cached(Some(cache(None)), NOW) {
        UpdateStatus::Stale { last_checked, .. } => assert_eq!(last_checked, NOW),
        other => panic!("{other:?}"),
    }
}

#[test]
fn default_configuration() {
    let c = UpdateConfig::default();
    assert!(c.enabled);
    assert_eq!(c.channel, "stable");
    assert_eq!(c.check_interval_hours, 24);
    assert_eq!(c.github_repo, "kryptic-sh/buffr");
    let client = ok("");
    let own = UpdateChecker::new(c, &client);
    let reply = Reply::Release(GithubRelease {
        tag_name: format!("v{}", buffr_core::version()),
        published_at: NOW,
        html_url: String::new(),
        body: None,
    });
    match own.check_now(reply, None, NOW).0 {
        UpdateStatus::UpToDate { current } => assert_eq!(current, v(buffr_core::version())),
        other => panic!("{other:?}"),
    }
}
