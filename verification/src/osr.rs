//! Off-screen rendering: the frame buffer and the viewport.
use std::collections::HashMap;
use vstd::prelude::*;
use vstd::slice::slice_to_vec;

verus! {

/// One captured frame of BGRA pixels, four bytes each. `generation` grows with
/// every paint, so a reader can tell whether anything changed.
#[derive(Debug, Clone, PartialEq, Eq)]
pub struct OsrFrame {
    pub width: u32,
    pub height: u32,
    pub pixels: Vec<u8>,
    pub generation: u64,
}

/// Bytes in a frame of this size.
pub open spec fn frame_len(width: u32, height: u32) -> int {
    width * height * 4
}

/// The bytes in a frame of this size, if they can be addressed.
fn checked_len(width: u32, height: u32) -> (r: Option<usize>)
    ensures
        r == if frame_len(width, height) <= usize::MAX {
            Some(frame_len(width, height) as usize)
        } else {
            None
        },
{
    let w: u128 = width as u128;
    let h: u128 = height as u128;
    assert(w * h <= 0xffff_ffff * 0xffff_ffff) by (nonlinear_arith)
        requires
            w <= 0xffff_ffff,
            h <= 0xffff_ffff,
    ;
    let n: u128 = w * h * 4;
    let top: u128 = usize::MAX as u128;
    if n <= top {
        Some(n as usize)
    } else {
        None
    }
}

impl OsrFrame {
    /// The buffer holds exactly the pixels of the frame.
    pub open spec fn wf(self) -> bool {
        self.pixels@.len() == frame_len(self.width, self.height)
    }

    /// A black frame of this size.
    pub fn new(width: u32, height: u32) -> (r: Self)
        requires
            frame_len(width, height) <= usize::MAX,
        ensures
            r.wf(),
            r.width == width,
            r.height == height,
            r.pixels@ == Seq::new(frame_len(width, height) as nat, |i: int| 0u8),
            r.generation == 0,
    {
        let pixels = match checked_len(width, height) {
            Some(n) => black(n),
            None => Vec::new(),
        };
        OsrFrame { width, height, pixels, generation: 0 }
    }

    /// Take over a painted buffer. The frame gets the painted size, even if
    /// its own buffer was swapped out in between. A buffer of another length
    /// than the size asks for is refused.
    pub fn paint(&mut self, width: u32, height: u32, buffer: &[u8]) -> (r: bool)
        ensures
            r == (buffer@.len() == frame_len(width, height)),
            r ==> final(self).wf() && final(self).width == width && final(self).height == height
                && final(self).pixels@ == buffer@ && final(self).generation
                == old(self).generation.wrapping_add(1),
            !r ==> *final(self) == *old(self),
    {
        let have: usize = buffer.len();
        match checked_len(width, height) {
            Some(n) => if have != n {
                false
            } else {
                self.pixels = slice_to_vec(buffer);
                self.width = width;
                self.height = height;
                self.generation = self.generation.wrapping_add(1);
                true
            },
            None => false,
        }
    }
}

/// `n` zero bytes.
fn black(n: usize) -> (r: Vec<u8>)
    ensures
        r@ == Seq::new(n as nat, |i: int| 0u8),
{
    let mut out: Vec<u8> = Vec::new();
    out.resize(n, 0u8);
    assert(out@ =~= Seq::new(n as nat, |i: int| 0u8));
    out
}

/// Viewport size, scale factor in thousandths, and frame rate.
#[derive(Debug, Clone, Copy, PartialEq, Eq, Structural)]
pub struct OsrViewState {
    pub width: u32,
    pub height: u32,
    pub scale: u32,
    pub frame_rate_hz: u32,
}

/// The viewport before anything was set.
pub open spec fn default_view() -> OsrViewState {
    OsrViewState { width: 1280, height: 800, scale: 1000, frame_rate_hz: 60 }
}

impl OsrViewState {
    /// 1280 by 800 at scale 1.0 and 60 frames per second.
    pub fn new() -> (r: Self)
        ensures
            r == default_view(),
    {
        OsrViewState { width: 1280, height: 800, scale: 1000, frame_rate_hz: 60 }
    }
}

impl Default for OsrViewState {
    fn default() -> (r: Self)
        ensures
            r == default_view(),
    {
        OsrViewState::new()
    }
}

/// Which buffer a browser paints into.
#[derive(Debug, Clone, Copy, PartialEq, Eq, Structural)]
pub enum PaintTarget {
    /// The main view.
    Main,
    /// The popup with this browser id.
    Popup(i32),
}

/// Routes render callbacks of the main browser and its popups. The first
/// browser that calls is the main one.
#[derive(Debug)]
pub struct PaintRouter {
    main_id: i32,
    popups: HashMap<i32, OsrViewState>,
}

impl PaintRouter {
    /// Id of the main browser, -1 until it is known.
    pub closed spec fn main_browser(self) -> i32 {
        self.main_id
    }

    /// Viewports of the popups.
    pub closed spec fn popup_views(self) -> Map<i32, OsrViewState> {
        self.popups@
    }

    /// The main browser once browser `id` has called.
    pub open spec fn main_after(self, id: i32) -> i32 {
        if self.main_browser() == -1 {
            id
        } else {
            self.main_browser()
        }
    }

    /// A router that knows no browser.
    pub fn new() -> (r: Self)
        ensures
            r.main_browser() == -1,
            r.popup_views() == Map::<i32, OsrViewState>::empty(),
    {
        let r = PaintRouter { main_id: -1, popups: HashMap::new() };
        assert(r.popup_views() =~= Map::empty());
        r
    }

    /// Register a popup, or its new viewport.
    pub fn insert_popup(&mut self, id: i32, view: OsrViewState)
        ensures
            final(self).main_browser() == old(self).main_browser(),
            final(self).popup_views() == old(self).popup_views().insert(id, view),
    {
        broadcast use vstd::std_specs::hash::group_hash_axioms;

        self.popups.insert(id, view);
    }

    /// Forget a popup.
    pub fn remove_popup(&mut self, id: i32)
        ensures
            final(self).main_browser() == old(self).main_browser(),
            final(self).popup_views() == old(self).popup_views().remove(id),
    {
        broadcast use vstd::std_specs::hash::group_hash_axioms;

        self.popups.remove(&id);
    }

    /// Viewport size for a browser: that of the main view unless the browser
    /// is a popup. `main` is the main viewport.
    pub fn resolve_dims(&mut self, browser_id: Option<i32>, main: OsrViewState) -> (r: (u32, u32))
        ensures
            final(self).popup_views() == old(self).popup_views(),
            match browser_id {
                Some(id) => {
                    &&& final(self).main_browser() == old(self).main_after(id)
                    &&& r == if old(self).main_after(id) != id
                        && old(self).popup_views().contains_key(id) {
                        (old(self).popup_views()[id].width, old(self).popup_views()[id].height)
                    } else {
                        (main.width, main.height)
                    }
                },
                None => final(self).main_browser() == old(self).main_browser() && r == (main.width, main.height),
            },
    {
        broadcast use vstd::std_specs::hash::group_hash_axioms;

        if let Some(id) = browser_id {
            if self.main_id == -1 {
                self.main_id = id;
            }
            if self.main_id != id {
                if let Some(v) = self.popups.get(&id) {
                    return (v.width, v.height);
                }
            }
        }
        (main.width, main.height)
    }

    /// The buffer that a browser paints into. `None` for a browser that is
    /// neither the main one nor a known popup.
    pub fn resolve_frame_view(&mut self, browser_id: Option<i32>) -> (r: Option<PaintTarget>)
        ensures
            final(self).popup_views() == old(self).popup_views(),
            match browser_id {
                Some(id) => {
                    &&& final(self).main_browser() == old(self).main_after(id)
                    &&& r == if old(self).main_after(id) == id {
                        Some(PaintTarget::Main)
                    } else if old(self).popup_views().contains_key(id) {
                        Some(PaintTarget::Popup(id))
                    } else {
                        None
                    }
                },
                None => final(self).main_browser() == old(self).main_browser() && r is None,
            },
    {
        broadcast use vstd::std_specs::hash::group_hash_axioms;

        match browser_id {
            Some(id) => {
                if self.main_id == -1 {
                    self.main_id = id;
                }
                if self.main_id == id {
                    Some(PaintTarget::Main)
                } else if self.popups.contains_key(&id) {
                    Some(PaintTarget::Popup(id))
                } else {
                    None
                }
            },
            None => None,
        }
    }
}

/// A frame has four bytes for each pixel, and its buffer holds exactly those.
pub proof fn law_frame_bytes(f: OsrFrame)
    ensures
        f.wf() <==> f.pixels@.len() == 4 * (f.width * f.height),
        frame_len(f.width, f.height) == 4 * (f.width * f.height),
{
    assert(f.width * f.height * 4 == 4 * (f.width * f.height));
}

/// The first browser that calls is the main one and stays it.
pub proof fn law_first_caller_is_main(r: PaintRouter, id: i32)
    ensures
        r.main_browser() == -1 ==> r.main_after(id) == id,
        r.main_browser() != -1 ==> r.main_after(id) == r.main_browser(),
{
}

/// The viewport before anything was set.
pub proof fn law_default_view()
    ensures
        default_view().width == 1280,
        default_view().height == 800,
        default_view().scale == 1000,
        default_view().frame_rate_hz == 60,
{
}

} // verus!
