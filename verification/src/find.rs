//! Find in page: a mailbox for the latest result.
use vstd::prelude::*;

verus! {

/// One report of a running search.
#[derive(Debug, Clone, Copy, PartialEq, Eq, Structural)]
pub struct FindResult {
    /// Matches on the page.
    pub count: u32,
    /// Number of the active match, from 1; 0 before the first is found.
    pub current: u32,
    /// Whether the list of matches is complete.
    pub final_update: bool,
}

/// One-slot mailbox: a later result replaces an unread one.
pub type FindResultSink = Option<FindResult>;

/// An empty mailbox.
pub fn new_sink() -> (r: FindResultSink)
    ensures
        r is None,
{
    None
}

/// Put a result into the mailbox in place of what it holds.
pub fn store_latest(sink: &mut FindResultSink, result: FindResult)
    ensures
        *final(sink) == Some(result),
{
    *sink = Some(result);
}

/// Take the latest result out of the mailbox, once per write.
pub fn take_latest(sink: &mut FindResultSink) -> (r: Option<FindResult>)
    ensures
        r == *old(sink),
        *final(sink) is None,
{
    sink.take()
}

/// A result from the numbers that the browser reports; negative ones count as
/// nothing.
pub fn find_result(count: i32, active: i32, final_update: bool) -> (r: FindResult)
    ensures
        r.count == if count > 0 {
            count as int
        } else {
            0
        },
        r.current == if active > 0 {
            active as int
        } else {
            0
        },
        r.final_update == final_update,
{
    FindResult { count: at_least_zero(count), current: at_least_zero(active), final_update }
}

/// `n`, or 0 if it is negative.
fn at_least_zero(n: i32) -> (r: u32)
    ensures
        r == if n > 0 {
            n as int
        } else {
            0
        },
{
    if n > 0 {
        n as u32
    } else {
        0
    }
}

} // verus!
