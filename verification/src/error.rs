//! Errors of the browser host.
use crate::text::push_str;
use vstd::prelude::*;

verus! {

/// What can go wrong in the host.
#[derive(Debug, PartialEq, Eq)]
pub enum CoreError {
    /// The browser runtime did not start.
    InitFailed,
    /// No profile directories on this system.
    NoProjectDirs,
    /// A URL that cannot be loaded.
    InvalidUrl(String),
    /// The runtime gave no browser, or there is none to act on.
    CreateBrowserFailed,
}

/// The message for each error.
pub open spec fn core_error_text(e: CoreError) -> Seq<char> {
    match e {
        CoreError::InitFailed => "cef initialize() returned a failure code"@,
        CoreError::NoProjectDirs => "could not resolve project directories"@,
        CoreError::InvalidUrl(url) => "invalid url: "@ + url@,
        CoreError::CreateBrowserFailed => "creating browser failed"@,
    }
}

impl CoreError {
    /// The message shown to the user.
    pub fn message(&self) -> (r: String)
        ensures
            r@ == core_error_text(*self),
    {
        match self {
            CoreError::InitFailed => "cef initialize() returned a failure code".to_owned(),
            CoreError::NoProjectDirs => "could not resolve project directories".to_owned(),
            CoreError::InvalidUrl(url) => {
                let mut out = "invalid url: ".to_owned();
                push_str(&mut out, url.as_str());
                out
            },
            CoreError::CreateBrowserFailed => "creating browser failed".to_owned(),
        }
    }
}

/// Each error has its message, and an invalid URL is repeated in it.
pub proof fn law_messages(url: String)
    ensures
        core_error_text(CoreError::InitFailed) == "cef initialize() returned a failure code"@,
        core_error_text(CoreError::NoProjectDirs) == "could not resolve project directories"@,
        core_error_text(CoreError::InvalidUrl(url)) == "invalid url: "@ + url@,
        core_error_text(CoreError::CreateBrowserFailed) == "creating browser failed"@,
{
}

} // verus!
