//! The cursor that a page asks for: one slot, the last request wins.
use vstd::prelude::*;

verus! {

/// Latest cursor request and the browser that made it.
#[derive(Debug, Clone, Copy, PartialEq, Eq, Structural)]
pub struct CursorState {
    kind: u32,
    browser_id: i32,
    dirty: bool,
}

impl CursorState {
    /// The latest request, read or not: the browser that made it and the
    /// cursor it asked for.
    pub closed spec fn latest(self) -> (i32, u32) {
        (self.browser_id, self.kind)
    }

    /// The request that was not read yet.
    pub closed spec fn pending(self) -> Option<(i32, u32)> {
        if self.dirty {
            Some((self.browser_id, self.kind))
        } else {
            None
        }
    }

    /// No request yet: the default pointer, no browser.
    pub fn new() -> (r: Self)
        ensures
            r.pending() is None,
            r.latest() == (-1i32, 0u32),
    {
        CursorState { kind: 0, browser_id: -1, dirty: false }
    }

    /// Record a request in place of an unread one.
    pub fn store(&mut self, browser_id: i32, kind_raw: u32)
        ensures
            final(self).pending() == Some((browser_id, kind_raw)),
            final(self).latest() == (browser_id, kind_raw),
    {
        self.kind = kind_raw;
        self.browser_id = browser_id;
        self.dirty = true;
    }

    /// The latest request, once.
    pub fn take(&mut self) -> (r: Option<(i32, u32)>)
        ensures
            r == old(self).pending(),
            final(self).pending() is None,
            final(self).latest() == old(self).latest(),
    {
        if self.dirty {
            self.dirty = false;
            Some((self.browser_id, self.kind))
        } else {
            None
        }
    }
}

impl Default for CursorState {
    fn default() -> (r: Self)
        ensures
            r.pending() is None,
            r.latest() == (-1i32, 0u32),
    {
        CursorState::new()
    }
}

} // verus!
