//! Core of the buffr browser host.
//!
//! The library holds the decisions and the embedder performs them. Pages are
//! drawn, files read and requests sent elsewhere; here stand the tab strip and
//! what each operation asks of the browsers ([`host`], [`strip`]), hint mode
//! and its labels ([`hint`], [`label`]), the scripts spliced into pages
//! ([`js`], [`json`], [`scripts`]), edit-mode events ([`edit`]), the command
//! line ([`cmdline`]), the rules behind the browser callbacks ([`handlers`],
//! [`path`]), off-screen frames ([`osr`]), usage counters ([`telemetry`]),
//! crash reports ([`crash`]), update checks ([`updates`], [`version`]) and
//! names for pages without a title ([`url`]). What holds of the tab strip, of
//! the host and of the text primitives as a whole is stated in [`strip_laws`],
//! [`host_laws`] and [`text_laws`]; the other laws stand beside what they are
//! about.
use vstd::prelude::*;

pub mod clock;
pub mod cmdline;
pub mod crash;
pub mod cursor;
pub mod download_notice;
pub mod edit;
pub mod error;
pub mod favicon;
pub mod find;
pub mod handlers;
pub mod hint;
pub mod host;
pub mod host_laws;
pub mod js;
pub mod json;
pub mod label;
pub mod new_tab;
pub mod open_finder;
pub mod osr;
pub mod path;
pub mod platform;
pub mod popup;
pub mod scripts;
pub mod strip;
pub mod strip_laws;
pub mod telemetry;
pub mod text;
pub mod text_laws;
pub mod updates;
pub mod url;
pub mod version;

pub use error::CoreError;
pub use popup::{drain_popup_urls, new_popup_queue, PopupQueue};

verus! {

/// Version of this library.
pub fn version() -> (r: &'static str)
    ensures
        r == updates::VERSION,
        r@ == "0.3.0"@,
{
    updates::VERSION
}

} // verus!
