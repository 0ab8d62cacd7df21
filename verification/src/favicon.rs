//! Favicons on their way from the browser to the tab strip.
use std::collections::VecDeque;
use vstd::prelude::*;

verus! {

/// A decoded favicon: one packed pixel each, `width * height` of them.
#[derive(Debug, Clone, PartialEq, Eq)]
pub struct FaviconUpdate {
    pub browser_id: i32,
    pub width: u32,
    pub height: u32,
    pub pixels: Vec<u32>,
}

/// Queue of decoded favicons, oldest first.
pub type FaviconSink = VecDeque<FaviconUpdate>;

/// An empty queue.
pub fn new_favicon_sink() -> (r: FaviconSink)
    ensures
        r@.len() == 0,
{
    VecDeque::new()
}

/// Take every pending favicon, oldest first.
pub fn drain_favicon_updates(sink: &mut FaviconSink) -> (r: Vec<FaviconUpdate>)
    ensures
        r@ == old(sink)@,
        final(sink)@.len() == 0,
{
    let mut out: Vec<FaviconUpdate> = Vec::new();
    let ghost all = sink@;
    while sink.len() > 0
        invariant
            all == out@ + sink@,
        decreases sink@.len(),
    {
        match sink.pop_front() {
            Some(u) => {
                out.push(u);
                assert(all == out@ + sink@);
            },
            None => {},
        }
    }
    assert(out@ + sink@ == out@);
    out
}

/// Whether favicons are fetched at all.
pub type FaviconEnabled = bool;

/// The switch in its first position.
pub fn new_favicon_enabled(initial: bool) -> (r: FaviconEnabled)
    ensures
        r == initial,
{
    initial
}

/// Whether the switch is on.
pub fn favicon_is_enabled(flag: &FaviconEnabled) -> (r: bool)
    ensures
        r == *flag,
{
    *flag
}

/// Set the switch.
pub fn set_favicon_enabled(flag: &mut FaviconEnabled, value: bool)
    ensures
        *final(flag) == value,
{
    *flag = value;
}

} // verus!
