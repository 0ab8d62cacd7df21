//! Download notices: shown for a while, then dropped.
use std::collections::VecDeque;
use vstd::prelude::*;

verus! {

/// Nanoseconds in a second.
pub const NANOS_PER_SEC: u64 = 1_000_000_000;

/// What happened to a download.
#[derive(Debug, Clone, Copy, PartialEq, Eq, Structural)]
pub enum DownloadNoticeKind {
    /// The transfer began.
    Started,
    /// The file is on disk.
    Completed,
    /// The transfer was cancelled or interrupted.
    Failed,
}

/// How long a notice of this kind stays, in nanoseconds: two seconds for a
/// start, four otherwise.
pub open spec fn lifetime(kind: DownloadNoticeKind) -> u64 {
    match kind {
        DownloadNoticeKind::Started => 2_000_000_000,
        DownloadNoticeKind::Completed => 4_000_000_000,
        DownloadNoticeKind::Failed => 4_000_000_000,
    }
}

impl DownloadNoticeKind {
    /// How long a notice of this kind stays, in nanoseconds.
    pub fn expiry_duration(self) -> (r: u64)
        ensures
            r == lifetime(self),
    {
        match self {
            DownloadNoticeKind::Started => 2 * NANOS_PER_SEC,
            DownloadNoticeKind::Completed => 4 * NANOS_PER_SEC,
            DownloadNoticeKind::Failed => 4 * NANOS_PER_SEC,
        }
    }
}

/// One notice.
#[derive(Debug, Clone, PartialEq, Eq)]
pub struct DownloadNotice {
    pub kind: DownloadNoticeKind,
    /// Suggested file name.
    pub filename: String,
    /// Path on disk, empty where there is none.
    pub path: String,
    /// Monotonic clock reading in nanoseconds at creation.
    pub created_at: u64,
}

/// Whether a notice outlived its time at clock reading `now`.
pub open spec fn expired(n: DownloadNotice, now: u64) -> bool {
    now - n.created_at > lifetime(n.kind)
}

/// A copy of a notice.
fn copy_notice(n: &DownloadNotice) -> (r: DownloadNotice)
    ensures
        r == *n,
{
    DownloadNotice {
        kind: n.kind,
        filename: n.filename.clone(),
        path: n.path.clone(),
        created_at: n.created_at,
    }
}

impl DownloadNotice {
    /// Whether the notice outlived its time at clock reading `now`. A clock
    /// that reads less than at creation counts as no time passed.
    pub fn is_expired(&self, now: u64) -> (r: bool)
        ensures
            r == expired(*self, now),
    {
        if now < self.created_at {
            false
        } else {
            now - self.created_at > self.kind.expiry_duration()
        }
    }
}

/// Queue of notices, oldest first.
pub type DownloadNoticeQueue = VecDeque<DownloadNotice>;

/// An empty queue.
pub fn new_queue() -> (r: DownloadNoticeQueue)
    ensures
        r@.len() == 0,
{
    VecDeque::new()
}

/// Append a notice.
pub fn push(queue: &mut DownloadNoticeQueue, notice: DownloadNotice)
    ensures
        final(queue)@ == old(queue)@.push(notice),
{
    queue.push_back(notice);
}

/// A copy of the oldest notice.
pub fn peek_front(queue: &DownloadNoticeQueue) -> (r: Option<DownloadNotice>)
    ensures
        r == if queue@.len() == 0 {
            None
        } else {
            Some(queue@[0])
        },
{
    if queue.len() == 0 {
        None
    } else {
        Some(copy_notice(&queue[0]))
    }
}

/// Remove the oldest notice.
pub fn pop_front(queue: &mut DownloadNoticeQueue) -> (r: Option<DownloadNotice>)
    ensures
        old(queue)@.len() == 0 ==> r is None && final(queue)@ == old(queue)@,
        old(queue)@.len() > 0 ==> r == Some(old(queue)@[0]) && final(queue)@
            == old(queue)@.drop_first(),
{
    let r = queue.pop_front();
    assert(old(queue)@.len() > 0 ==> queue@ =~= old(queue)@.drop_first());
    r
}

/// Number of notices.
pub fn queue_len(queue: &DownloadNoticeQueue) -> (r: usize)
    ensures
        r == queue@.len(),
{
    queue.len()
}

/// Drop the notices that outlived their time at clock reading `now`, wherever
/// they stand. Returns how many were dropped.
pub fn expire_stale(queue: &mut DownloadNoticeQueue, now: u64) -> (dropped: usize)
    ensures
        final(queue)@ == old(queue)@.filter(|n: DownloadNotice| !expired(n, now)),
        dropped == old(queue)@.len() - final(queue)@.len(),
{
    let ghost all = queue@;
    let ghost keep = |n: DownloadNotice| !expired(n, now);
    let before: usize = queue.len();
    let mut kept: VecDeque<DownloadNotice> = VecDeque::new();
    let mut dropped: usize = 0;
    let ghost mut done: int = 0;
    proof {
        reveal(Seq::filter);
    }
    assert(all.skip(0) == all);
    while queue.len() > 0
        invariant
            before == all.len(),
            0 <= done <= all.len(),
            queue@ == all.skip(done),
            keep == |n: DownloadNotice| !expired(n, now),
            kept@ == all.take(done).filter(keep),
            dropped + kept@.len() == done,
        decreases queue@.len(),
    {
        match queue.pop_front() {
            Some(n) => {
                proof {
                    reveal(Seq::filter);
                    assert(n == all[done]);
                    assert(all.take(done + 1).drop_last() == all.take(done));
                }
                if n.is_expired(now) {
                    dropped += 1;
                } else {
                    kept.push_back(n);
                }
                proof {
                    done = done + 1;
                }
            },
            None => {},
        }
    }
    assert(all.take(done) == all);
    *queue = kept;
    dropped
}

/// After a sweep no notice in the queue has outlived its time, and a second
/// sweep at the same reading drops nothing.
pub proof fn law_sweep_leaves_only_fresh(queue: Seq<DownloadNotice>, now: u64)
    ensures
        ({
            let swept = queue.filter(|n: DownloadNotice| !expired(n, now));
            &&& forall|i: int| 0 <= i < swept.len() ==> !expired(#[trigger] swept[i], now)
            &&& swept.filter(|n: DownloadNotice| !expired(n, now)) == swept
        }),
    decreases queue.len(),
{
    reveal(Seq::filter);
    let keep = |n: DownloadNotice| !expired(n, now);
    if queue.len() > 0 {
        law_sweep_leaves_only_fresh(queue.drop_last(), now);
        let inner = queue.drop_last().filter(keep);
        if keep(queue.last()) {
            assert(inner.push(queue.last()).drop_last() == inner);
        }
    }
}

/// A notice of a start is gone once more than two seconds passed, any other
/// once more than four did.
pub proof fn law_notices_run_out(n: DownloadNotice, now: u64)
    ensures
        n.kind == DownloadNoticeKind::Started ==> (expired(n, now) <==> now > n.created_at
            + 2_000_000_000),
        n.kind != DownloadNoticeKind::Started ==> (expired(n, now) <==> now > n.created_at
            + 4_000_000_000),
        lifetime(DownloadNoticeKind::Started) == 2_000_000_000,
        lifetime(DownloadNoticeKind::Completed) == 4_000_000_000,
        lifetime(DownloadNoticeKind::Failed) == 4_000_000_000,
{
}

} // verus!
