//! Semantic versions.
use crate::text::{decimal, is_empty_text, push_decimal, push_str, same_text};
use vstd::prelude::*;

verus! {

/// A semantic version. Its parts come from [`Version::parse`], so the
/// pre-release and build texts are well formed.
#[derive(Debug, PartialEq, Eq)]
pub struct Version {
    major: u64,
    minor: u64,
    patch: u64,
    pre: String,
    build: String,
}

/// Mathematical value of a [`Version`].
#[verifier::ext_equal]
pub struct VersionValue {
    pub major: u64,
    pub minor: u64,
    pub patch: u64,
    pub pre: Seq<char>,
    pub build: Seq<char>,
}

impl View for Version {
    type V = VersionValue;

    closed spec fn view(&self) -> VersionValue {
        VersionValue {
            major: self.major,
            minor: self.minor,
            patch: self.patch,
            pre: self.pre@,
            build: self.build@,
        }
    }
}

impl Clone for Version {
    fn clone(&self) -> (r: Self)
        ensures
            r@ == self@,
    {
        proof {
            use_type_invariant(self);
        }
        Version {
            major: self.major,
            minor: self.minor,
            patch: self.patch,
            pre: self.pre.clone(),
            build: self.build.clone(),
        }
    }
}

/// The parts of a version text: major, minor and patch number, pre-release and
/// build text; or the message that says what is wrong with it.
pub uninterp spec fn version_parts(text: Seq<char>) -> Result<
    (u64, u64, u64, Seq<char>, Seq<char>),
    Seq<char>,
>;

/// How two pre-release texts compare: -1, 0 or 1. `None` if one is malformed.
pub uninterp spec fn pre_order(a: Seq<char>, b: Seq<char>) -> Option<i8>;

/// How two build texts compare: -1, 0 or 1. `None` if one is malformed.
pub uninterp spec fn build_order(a: Seq<char>, b: Seq<char>) -> Option<i8>;

/// `semver::Version::parse`. The parts, or the error's message, are named. The
/// pre-release and build texts of a parsed version are well formed.
#[verifier::external_body]
fn parse_parts(text: &str) -> (r: Result<(u64, u64, u64, String, String), String>)
    ensures
        match r {
            Ok(p) => version_parts(text@) == Ok::<_, Seq<char>>((p.0, p.1, p.2, p.3@, p.4@))
                && pre_order(p.3@, p.3@) is Some && build_order(p.4@, p.4@) is Some,
            Err(e) => version_parts(text@) == Err::<
                (u64, u64, u64, Seq<char>, Seq<char>),
                Seq<char>,
            >(e@),
        },
{
    match semver::Version::parse(text) {
        Ok(v) => Ok((v.major, v.minor, v.patch, v.pre.to_string(), v.build.to_string())),
        Err(e) => Err(e.to_string()),
    }
}

/// `semver::Prerelease::new` on both texts, and how the results are ordered.
/// The result is named. Two well-formed texts always compare; they compare
/// equal if and only if they are the same text; no pre-release is well formed
/// and comes after every pre-release.
#[verifier::external_body]
fn order_pre(a: &str, b: &str) -> (r: Option<i8>)
    ensures
        r == pre_order(a@, b@),
        pre_order(a@, a@) is Some && pre_order(b@, b@) is Some ==> r is Some,
        r matches Some(n) ==> (n == 0 || n == 1 || n == -1) && (n == 0 <==> a@ == b@),
        a@.len() == 0 && b@.len() == 0 ==> r == Some(0i8),
        r is Some && a@.len() > 0 && b@.len() == 0 ==> r == Some(-1i8),
        r is Some && a@.len() == 0 && b@.len() > 0 ==> r == Some(1i8),
{
    let x = semver::Prerelease::new(a).ok()?;
    let y = semver::Prerelease::new(b).ok()?;
    Some(match x.cmp(&y) {
        std::cmp::Ordering::Less => -1,
        std::cmp::Ordering::Equal => 0,
        std::cmp::Ordering::Greater => 1,
    })
}

/// `semver::BuildMetadata::new` on both texts, and how the results are
/// ordered. The result is named. Two well-formed texts always compare; they
/// compare equal if and only if they are the same text. No build is well
/// formed.
#[verifier::external_body]
fn order_build(a: &str, b: &str) -> (r: Option<i8>)
    ensures
        r == build_order(a@, b@),
        a@.len() == 0 && b@.len() == 0 ==> r == Some(0i8),
        build_order(a@, a@) is Some && build_order(b@, b@) is Some ==> r is Some,
        r matches Some(n) ==> (n == 0 || n == 1 || n == -1) && (n == 0 <==> a@ == b@),
{
    let x = semver::BuildMetadata::new(a).ok()?;
    let y = semver::BuildMetadata::new(b).ok()?;
    Some(match x.cmp(&y) {
        std::cmp::Ordering::Less => -1,
        std::cmp::Ordering::Equal => 0,
        std::cmp::Ordering::Greater => 1,
    })
}

/// Whether version `a` is newer than `b`: by number, then by pre-release, then
/// by build.
pub open spec fn newer(a: VersionValue, b: VersionValue) -> bool {
    if a.major != b.major {
        a.major > b.major
    } else if a.minor != b.minor {
        a.minor > b.minor
    } else if a.patch != b.patch {
        a.patch > b.patch
    } else if a.pre != b.pre {
        pre_order(a.pre, b.pre) == Some(1i8)
    } else {
        build_order(a.build, b.build) == Some(1i8)
    }
}

/// The text of a version.
pub open spec fn version_text(v: VersionValue) -> Seq<char> {
    let numbers = decimal(v.major as nat) + "."@ + decimal(v.minor as nat) + "."@ + decimal(
        v.patch as nat,
    );
    let pre = if v.pre.len() > 0 {
        "-"@ + v.pre
    } else {
        Seq::empty()
    };
    let build = if v.build.len() > 0 {
        "+"@ + v.build
    } else {
        Seq::empty()
    };
    numbers + pre + build
}

impl Version {
    #[verifier::type_invariant]
    spec fn wf(self) -> bool {
        &&& pre_order(self.pre@, self.pre@) is Some
        &&& build_order(self.build@, self.build@) is Some
    }

    /// The release with these numbers.
    pub fn new(major: u64, minor: u64, patch: u64) -> (r: Self)
        ensures
            r@ == (VersionValue { major, minor, patch, pre: Seq::empty(), build: Seq::empty() }),
    {
        let pre = String::new();
        let build = String::new();
        let _ = order_pre(pre.as_str(), pre.as_str());
        let _ = order_build(build.as_str(), build.as_str());
        let r = Version { major, minor, patch, pre, build };
        assert(r@ =~= VersionValue { major, minor, patch, pre: Seq::empty(), build: Seq::empty() });
        r
    }

    /// Parse a version text; the error is a message for the user.
    pub fn parse(text: &str) -> (r: Result<Self, String>)
        ensures
            match (r, version_parts(text@)) {
                (Ok(v), Ok(p)) => v@ == (VersionValue {
                    major: p.0,
                    minor: p.1,
                    patch: p.2,
                    pre: p.3,
                    build: p.4,
                }),
                (Err(e), Err(m)) => e@ == m,
                _ => false,
            },
    {
        match parse_parts(text) {
            Ok(p) => Ok(Version { major: p.0, minor: p.1, patch: p.2, pre: p.3, build: p.4 }),
            Err(e) => Err(e),
        }
    }

    /// Whether this version is newer than `other`. No version is newer than
    /// itself, and a release is newer than its pre-releases.
    pub fn is_newer_than(&self, other: &Version) -> (r: bool)
        ensures
            r == newer(self@, other@),
            self@ == other@ ==> !r,
            self@.major == other@.major && self@.minor == other@.minor && self@.patch
                == other@.patch && self@.pre.len() == 0 && other@.pre.len() > 0 ==> r,
            self@.major == other@.major && self@.minor == other@.minor && self@.patch
                == other@.patch && self@.pre.len() > 0 && other@.pre.len() == 0 ==> !r,
    {
        proof {
            use_type_invariant(self);
            use_type_invariant(other);
        }
        if self.major != other.major {
            return self.major > other.major;
        }
        if self.minor != other.minor {
            return self.minor > other.minor;
        }
        if self.patch != other.patch {
            return self.patch > other.patch;
        }
        match order_pre(self.pre.as_str(), other.pre.as_str()) {
            Some(n) => if n != 0 {
                return n == 1;
            },
            None => {},
        }
        match order_build(self.build.as_str(), other.build.as_str()) {
            Some(n) => n == 1,
            None => false,
        }
    }

    /// Whether two versions are the same.
    pub fn same_as(&self, other: &Version) -> (r: bool)
        ensures
            r == (self@ == other@),
    {
        let r = self.major == other.major && self.minor == other.minor && self.patch == other.patch
            && same_text(self.pre.as_str(), other.pre.as_str()) && same_text(
            self.build.as_str(),
            other.build.as_str(),
        );
        proof {
            if r {
                assert(self@ =~= other@);
            }
        }
        r
    }

    /// The text of the version.
    pub fn to_string(&self) -> (r: String)
        ensures
            r@ == version_text(self@),
    {
        let mut out = String::new();
        push_decimal(&mut out, self.major);
        push_str(&mut out, ".");
        push_decimal(&mut out, self.minor);
        push_str(&mut out, ".");
        push_decimal(&mut out, self.patch);
        let ghost numbers = out@;
        assert(numbers =~= decimal(self.major as nat) + "."@ + decimal(self.minor as nat) + "."@
            + decimal(self.patch as nat));
        if !is_empty_text(self.pre.as_str()) {
            push_str(&mut out, "-");
            push_str(&mut out, self.pre.as_str());
        }
        if !is_empty_text(self.build.as_str()) {
            push_str(&mut out, "+");
            push_str(&mut out, self.build.as_str());
        }
        assert(out@ =~= version_text(self@));
        out
    }
}

/// A higher number is newer, whatever the pre-release and build texts say.
pub proof fn law_numbers_decide(a: VersionValue, b: VersionValue)
    ensures
        a.major > b.major ==> newer(a, b) && !newer(b, a),
        a.major == b.major && a.minor > b.minor ==> newer(a, b) && !newer(b, a),
        a.major == b.major && a.minor == b.minor && a.patch > b.patch ==> newer(a, b) && !newer(
            b,
            a,
        ),
{
}

/// With equal numbers the pre-release texts decide if they differ, and the
/// build texts otherwise.
pub proof fn law_texts_decide_last(a: VersionValue, b: VersionValue)
    requires
        a.major == b.major,
        a.minor == b.minor,
        a.patch == b.patch,
    ensures
        a.pre != b.pre ==> (newer(a, b) <==> pre_order(a.pre, b.pre) == Some(1i8)),
        a.pre == b.pre ==> (newer(a, b) <==> build_order(a.build, b.build) == Some(1i8)),
{
}

/// The text of a version: three numbers between dots, then what there is of a
/// pre-release after a hyphen and of a build after a plus sign.
pub proof fn law_version_text(v: VersionValue)
    ensures
        ({
            let numbers = decimal(v.major as nat) + "."@ + decimal(v.minor as nat) + "."@ + decimal(
                v.patch as nat,
            );
            &&& v.pre.len() == 0 && v.build.len() == 0 ==> version_text(v) == numbers
            &&& v.pre.len() > 0 && v.build.len() == 0 ==> version_text(v) == numbers + "-"@ + v.pre
            &&& v.pre.len() == 0 && v.build.len() > 0 ==> version_text(v) == numbers + "+"@
                + v.build
            &&& v.pre.len() > 0 && v.build.len() > 0 ==> version_text(v) == numbers + "-"@ + v.pre
                + "+"@ + v.build
        }),
{
}

} // verus!
