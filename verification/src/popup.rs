//! URLs of popups on their way to a tab.
use std::collections::VecDeque;
use vstd::prelude::*;

verus! {

/// Queue of URLs that pages wanted to open in a popup, oldest first.
pub type PopupQueue = VecDeque<String>;

/// An empty queue.
pub fn new_popup_queue() -> (r: PopupQueue)
    ensures
        r@.len() == 0,
{
    VecDeque::new()
}

/// Take all pending URLs, oldest first.
pub fn drain_popup_urls(q: &mut PopupQueue) -> (r: Vec<String>)
    ensures
        r@ == old(q)@,
        final(q)@.len() == 0,
{
    let mut out: Vec<String> = Vec::new();
    let ghost all = q@;
    while q.len() > 0
        invariant
            all == out@ + q@,
        decreases q@.len(),
    {
        match q.pop_front() {
            Some(u) => {
                out.push(u);
                assert(all == out@ + q@);
            },
            None => {},
        }
    }
    assert(out@ + q@ == out@);
    out
}

} // verus!
