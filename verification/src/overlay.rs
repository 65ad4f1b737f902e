//! The decisions of the overlay window: when it is shown, resized, drawn and
//! hidden, how the shortcut list is laid out in columns, and how the
//! background pixels are prepared.
//!
//! The window system work (surfaces, buffers, text rendering) is done by the
//! caller, which performs the requests that these functions return.

use crate::blur::{blur_passes, box_blur_multi_pass, byte_index};
use crate::input_listener::AltState;
use crate::util::Anchor;
use vstd::prelude::*;

verus! {

/// Something the overlay's surface must do.
#[derive(Debug, Clone, Copy, PartialEq, Eq, Structural)]
pub enum SurfaceRequest {
    /// Anchor the surface and give it this size, then commit.
    Resize { anchor: Anchor, width: u32, height: u32 },
    /// Draw the overlay into a new buffer and attach it.
    Draw,
    /// Anchor to all edges, ask for size 0x0, attach no buffer and commit.
    Unmap,
}

/// The kinds of key that the overlay window reacts to when they go down.
#[derive(Debug, Clone, Copy, PartialEq, Eq, Structural)]
pub enum PressedKey {
    /// Either Control key.
    Control,
    /// The Escape key.
    Escape,
    /// Any other key.
    Other,
}

/// What the overlay window knows about itself.
#[derive(Debug, Clone, Copy, PartialEq, Eq, Structural)]
pub struct OverlayState {
    /// The size of the overlay in pixels.
    pub width: u32,
    pub height: u32,
    /// Where on the screen the overlay is placed when shown.
    pub anchor: Anchor,
    /// Whether a layer surface exists.
    pub has_layer: bool,
    pub visible: bool,
    /// Whether the compositor has configured the surface before it was shown.
    pub configured: bool,
    pub keyboard_focus: bool,
}

/// The request that applying a size makes: one only when the surface exists
/// and is shown.
pub open spec fn resize_request(s: OverlayState, width: u32, height: u32) -> Option<SurfaceRequest> {
    if s.has_layer && s.visible {
        Some(SurfaceRequest::Resize { anchor: s.anchor, width, height })
    } else {
        None
    }
}

/// The width used when a width of 0 is asked for: the default overlay width.
pub const SAFE_WIDTH: u32 = 1200;

/// The height used when a height of 0 is asked for: the default overlay height.
pub const SAFE_HEIGHT: u32 = 800;

/// `v`, or `fallback` in place of 0.
pub open spec fn nonzero_or(v: u32, fallback: u32) -> u32 {
    if v == 0 { fallback } else { v }
}

/// The state once a size has been applied: a 0 width or height is replaced
/// by the safe default, and the size is kept.
pub open spec fn resized(s: OverlayState, width: u32, height: u32) -> OverlayState {
    OverlayState {
        width: nonzero_or(width, SAFE_WIDTH),
        height: nonzero_or(height, SAFE_HEIGHT),
        ..s
    }
}

/// The state once the overlay is shown: it is visible and its own size has
/// been applied.
pub open spec fn shown(s: OverlayState) -> OverlayState {
    resized(OverlayState { visible: true, ..s }, s.width, s.height)
}

/// The state once the overlay is hidden.
pub open spec fn hidden(s: OverlayState) -> OverlayState {
    OverlayState { visible: false, ..s }
}

/// Hiding a hidden overlay that was just shown brings back the state from
/// before, and the surface, once resized to be shown, is unmapped again.
pub proof fn lemma_hide_undoes_show(s: OverlayState)
    requires
        !s.visible,
        s.width > 0,
        s.height > 0,
    ensures
        hidden(shown(s)) == s,
        s.has_layer ==> show_requests(shown(s))[0] == (SurfaceRequest::Resize {
            anchor: s.anchor,
            width: s.width,
            height: s.height,
        }),
{
}

/// What showing asks of the surface, given the shown state: its size and
/// placement, then a drawing if the surface was configured.
pub open spec fn show_requests(s: OverlayState) -> Seq<SurfaceRequest> {
    (match resize_request(s, s.width, s.height) {
        Some(q) => seq![q],
        None => Seq::empty(),
    }) + (if s.configured {
        seq![SurfaceRequest::Draw]
    } else {
        Seq::empty()
    })
}

impl OverlayState {
    /// A hidden overlay of the given size and placement, without a surface yet.
    pub fn new(width: u32, height: u32, anchor: Anchor) -> (s: Self)
        ensures
            s.width == width,
            s.height == height,
            s.anchor == anchor,
            !s.has_layer,
            !s.visible,
            !s.configured,
            !s.keyboard_focus,
    {
        OverlayState {
            width,
            height,
            anchor,
            has_layer: false,
            visible: false,
            configured: false,
            keyboard_focus: false,
        }
    }

    /// The layer surface has been created (hidden, with size 0x0).
    pub fn create_layer_surface(&mut self)
        ensures
            *final(self) == (OverlayState { has_layer: true, ..*old(self) }),
    {
        self.has_layer = true;
    }

    /// The layer surface has been destroyed.
    pub fn destroy(&mut self)
        ensures
            *final(self) == (OverlayState { has_layer: false, ..*old(self) }),
    {
        self.has_layer = false;
    }

    /// Sets the overlay's size.  A 0 width or height is replaced by a safe
    /// default, so that the overlay stays a client-sized popup.  The size is
    /// kept for the next time the overlay is shown, and the surface is resized
    /// now if it exists and is shown.
    pub fn set_overlay_size(&mut self, width: u32, height: u32) -> (r: Option<SurfaceRequest>)
        ensures
            *final(self) == resized(*old(self), width, height),
            r == resize_request(
                *final(self),
                nonzero_or(width, SAFE_WIDTH),
                nonzero_or(height, SAFE_HEIGHT),
            ),
    {
        let w = if width == 0 { SAFE_WIDTH } else { width };
        let h = if height == 0 { SAFE_HEIGHT } else { height };
        self.width = w;
        self.height = h;
        if self.has_layer && self.visible {
            Some(SurfaceRequest::Resize { anchor: self.anchor, width: w, height: h })
        } else {
            None
        }
    }

    /// Shows the overlay: it becomes visible, takes its size and placement,
    /// and is drawn at once if the surface was configured.  Nothing happens
    /// when it is already shown.
    pub fn show_overlay(&mut self) -> (r: Vec<SurfaceRequest>)
        ensures
            old(self).visible ==> *final(self) == *old(self) && r@ == Seq::<SurfaceRequest>::empty(),
            !old(self).visible ==> *final(self) == shown(*old(self)) && r@ == show_requests(
                shown(*old(self)),
            ),
    {
        let mut r: Vec<SurfaceRequest> = Vec::new();
        if self.visible {
            assert(r@ =~= Seq::<SurfaceRequest>::empty());
            return r;
        }
        self.visible = true;
        let w = self.width;
        let h = self.height;
        match self.set_overlay_size(w, h) {
            Some(q) => r.push(q),
            None => {},
        }
        if self.configured {
            r.push(SurfaceRequest::Draw);
        }
        assert(r@ =~= show_requests(shown(*old(self))));
        r
    }

    /// Hides the overlay: the surface is unmapped if it exists.  Nothing
    /// happens when it is already hidden.
    pub fn hide_overlay(&mut self) -> (r: Option<SurfaceRequest>)
        ensures
            !old(self).visible ==> *final(self) == *old(self) && r is None,
            old(self).visible ==> *final(self) == hidden(*old(self)) && r == (
            if old(self).has_layer {
                Some(SurfaceRequest::Unmap)
            } else {
                None
            }),
    {
        if !self.visible {
            return None;
        }
        self.visible = false;
        if self.has_layer {
            Some(SurfaceRequest::Unmap)
        } else {
            None
        }
    }

    /// The compositor configured the surface: a shown overlay is drawn now.
    pub fn configure(&self) -> (r: Option<SurfaceRequest>)
        ensures
            r == (if self.visible {
                Some(SurfaceRequest::Draw)
            } else {
                None
            }),
    {
        if self.visible {
            Some(SurfaceRequest::Draw)
        } else {
            None
        }
    }

    /// The keyboard focus entered the surface.
    pub fn enter(&mut self)
        ensures
            *final(self) == (OverlayState { keyboard_focus: true, ..*old(self) }),
    {
        self.keyboard_focus = true;
    }

    /// The keyboard focus left the surface.
    pub fn leave(&mut self)
        ensures
            *final(self) == (OverlayState { keyboard_focus: false, ..*old(self) }),
    {
        self.keyboard_focus = false;
    }

    /// A key went down.  A Control key gives the overlay the keyboard focus;
    /// Escape toggles whether the overlay is shown; other keys change nothing.
    pub fn press_key(&mut self, key: PressedKey) -> (r: Vec<SurfaceRequest>)
        ensures
            key == PressedKey::Control ==> *final(self) == (OverlayState {
                keyboard_focus: true,
                ..*old(self)
            }) && r@ == Seq::<SurfaceRequest>::empty(),
            key == PressedKey::Escape ==> final(self).visible == !old(self).visible,
            key == PressedKey::Escape && old(self).visible ==> *final(self) == hidden(*old(self))
                && r@ == (if old(self).has_layer {
                seq![SurfaceRequest::Unmap]
            } else {
                Seq::<SurfaceRequest>::empty()
            }),
            key == PressedKey::Escape && !old(self).visible ==> *final(self) == shown(*old(self))
                && r@ == show_requests(shown(*old(self))),
            key == PressedKey::Other ==> *final(self) == *old(self) && r@ == Seq::<
                SurfaceRequest,
            >::empty(),
    {
        match key {
            PressedKey::Control => {
                self.keyboard_focus = true;
                Vec::new()
            },
            PressedKey::Escape => {
                if self.visible {
                    let mut r: Vec<SurfaceRequest> = Vec::new();
                    match self.hide_overlay() {
                        Some(q) => r.push(q),
                        None => {},
                    }
                    assert(r@ =~= (if old(self).has_layer {
                        seq![SurfaceRequest::Unmap]
                    } else {
                        Seq::<SurfaceRequest>::empty()
                    }));
                    r
                } else {
                    self.show_overlay()
                }
            },
            PressedKey::Other => Vec::new(),
        }
    }

    /// A key came up; a Control key takes the focus away and hides the overlay.
    pub fn release_key(&mut self, is_control: bool) -> (r: Option<SurfaceRequest>)
        ensures
            !is_control ==> *final(self) == *old(self) && r is None,
            is_control ==> {
                let unfocused = OverlayState { keyboard_focus: false, ..*old(self) };
                &&& *final(self) == (OverlayState { visible: false, ..unfocused })
                &&& r == (if unfocused.visible && unfocused.has_layer {
                    Some(SurfaceRequest::Unmap)
                } else {
                    None
                })
            },
    {
        if is_control {
            self.keyboard_focus = false;
            self.hide_overlay()
        } else {
            None
        }
    }

    /// The held modifiers changed: the overlay shows while Alt is held and
    /// hides otherwise.
    pub fn update_modifiers(&mut self, alt: bool) -> (r: Vec<SurfaceRequest>)
        ensures
            alt && old(self).visible ==> *final(self) == *old(self) && r@ == Seq::<
                SurfaceRequest,
            >::empty(),
            alt && !old(self).visible ==> *final(self) == shown(*old(self)) && r@ == show_requests(
                shown(*old(self)),
            ),
            !alt ==> *final(self) == (OverlayState { visible: false, ..*old(self) }) && r@ == (
            if old(self).visible && old(self).has_layer {
                seq![SurfaceRequest::Unmap]
            } else {
                Seq::<SurfaceRequest>::empty()
            }),
    {
        if alt {
            self.show_overlay()
        } else {
            let mut r: Vec<SurfaceRequest> = Vec::new();
            match self.hide_overlay() {
                Some(q) => r.push(q),
                None => {},
            }
            assert(r@ =~= (if old(self).visible && old(self).has_layer {
                seq![SurfaceRequest::Unmap]
            } else {
                Seq::<SurfaceRequest>::empty()
            }));
            r
        }
    }
}

/// What the main loop does with the overlay window's thread.
#[derive(Debug, Clone, Copy, PartialEq, Eq, Structural)]
pub enum SupervisorAction {
    /// Start a new overlay window with the current shortcuts and settings.
    SpawnOverlay,
    /// Tell the running overlay window to close and wait for it.
    StopOverlay,
    Nothing,
}

/// Whether an overlay window, started by the main loop, is still running.
#[derive(Debug, Clone, Copy, PartialEq, Eq, Structural)]
pub struct OverlaySupervisor {
    pub overlay_running: bool,
}

impl OverlaySupervisor {
    /// No overlay window running.
    pub fn new() -> (s: Self)
        ensures
            !s.overlay_running,
    {
        OverlaySupervisor { overlay_running: false }
    }

    /// The action for one report of the Alt listener: Alt alone held starts a
    /// new overlay window (the main loop no longer tracks an earlier one); a
    /// release stops the running one.
    pub fn on_alt_state(&mut self, state: AltState) -> (a: SupervisorAction)
        ensures
            state == AltState::Pressed ==> a == SupervisorAction::SpawnOverlay
                && final(self).overlay_running,
            state == AltState::Released ==> !final(self).overlay_running && a == (
            if old(self).overlay_running {
                SupervisorAction::StopOverlay
            } else {
                SupervisorAction::Nothing
            }),
    {
        match state {
            AltState::Pressed => {
                self.overlay_running = true;
                SupervisorAction::SpawnOverlay
            },
            AltState::Released => {
                if self.overlay_running {
                    self.overlay_running = false;
                    SupervisorAction::StopOverlay
                } else {
                    SupervisorAction::Nothing
                }
            },
        }
    }
}

/// The most shortcuts that the overlay lists.
pub const MAX_LISTED_SHORTCUTS: usize = 300;

/// How many columns the list needs: one per `lines_per_column` entries, at
/// most three.
pub open spec fn columns_for(total: int, lines_per_column: int) -> int {
    if total > lines_per_column * 2 {
        3
    } else if total > lines_per_column {
        2
    } else {
        1
    }
}

/// The number of columns for `total` shortcuts (see `columns_for`).
pub fn column_count(total: usize, lines_per_column: usize) -> (n: usize)
    requires
        lines_per_column * 2 <= usize::MAX,
    ensures
        n == columns_for(total as int, lines_per_column as int),
{
    if total > lines_per_column * 2 {
        3
    } else if total > lines_per_column {
        2
    } else {
        1
    }
}

/// The column and row of entry `idx` when columns are filled one after the
/// other; `None` when the entry no longer fits in `num_columns` columns.
pub fn grid_slot(idx: usize, lines_per_column: usize, num_columns: usize) -> (r: Option<(usize, usize)>)
    requires
        lines_per_column * num_columns <= usize::MAX,
    ensures
        idx >= lines_per_column * num_columns ==> r is None,
        idx < lines_per_column * num_columns ==> r == Some(
            ((idx / lines_per_column) as usize, (idx % lines_per_column) as usize),
        ),
{
    if idx >= lines_per_column * num_columns {
        None
    } else {
        Some((idx / lines_per_column, idx % lines_per_column))
    }
}

/// A filled slot of a grid is inside it: its column is below the number of
/// columns and its row below the number of rows.
pub proof fn lemma_grid_slot_in_bounds(idx: int, lines_per_column: int, num_columns: int)
    requires
        0 <= idx < lines_per_column * num_columns,
        lines_per_column > 0,
    ensures
        0 <= idx / lines_per_column < num_columns,
        0 <= idx % lines_per_column < lines_per_column,
        (idx / lines_per_column) * lines_per_column + idx % lines_per_column == idx,
{
    vstd::arithmetic::div_mod::lemma_fundamental_div_mod(idx, lines_per_column);
    let q = idx / lines_per_column;
    let r = idx % lines_per_column;
    assert(lines_per_column * q == q * lines_per_column) by (nonlinear_arith);
    assert(0 <= q < num_columns) by (nonlinear_arith)
        requires
            idx == q * lines_per_column + r,
            0 <= r < lines_per_column,
            0 <= idx < lines_per_column * num_columns,
    ;
}

/// Byte `i` of a pixel buffer with the red and blue bytes of each pixel
/// exchanged (RGBA to BGRA and back).
pub open spec fn swapped_byte(s: Seq<u8>, i: int) -> u8 {
    if i % 4 == 0 {
        s[i + 2]
    } else if i % 4 == 2 {
        s[i - 2]
    } else {
        s[i]
    }
}

/// `base` with its first `n` pixels taken from `s` with red and blue exchanged.
pub open spec fn swap_pixels(s: Seq<u8>, base: Seq<u8>, n: int) -> Seq<u8> {
    Seq::new(base.len(), |i: int| if i < n * 4 { swapped_byte(s, i) } else { base[i] })
}

/// The zero bytes of a fresh buffer of length `len`.
pub open spec fn zeroes(len: nat) -> Seq<u8> {
    Seq::new(len, |i: int| 0u8)
}

/// The canvas after the background is prepared: the panel's pixels (RGBA)
/// are copied in as BGRA when there are enough of them, then blurred, if
/// asked, with radius 12 in 5 passes.
pub open spec fn composed_background(
    pixels: Seq<u8>,
    canvas: Seq<u8>,
    width: int,
    height: int,
    apply_blur: bool,
) -> Seq<u8> {
    let n = width * height;
    let copied = if pixels.len() >= n * 4 {
        swap_pixels(pixels, canvas, n)
    } else {
        canvas
    };
    let rgba = swap_pixels(copied, zeroes(canvas.len()), n);
    let blurred = if apply_blur {
        blur_passes(rgba, width, height, 12, 5)
    } else {
        rgba
    };
    swap_pixels(blurred, copied, n)
}

/// Writes the first `n` pixels of `src`, red and blue exchanged, into `dst`.
fn copy_swapped(src: &[u8], dst: &mut [u8], n: usize)
    requires
        n * 4 <= src@.len(),
        n * 4 <= old(dst)@.len(),
    ensures
        final(dst)@ == swap_pixels(src@, old(dst)@, n as int),
{
    let ghost d0 = dst@;
    let src_len = src.len();
    let mut p: usize = 0;
    while p < n
        invariant
            p <= n,
            src_len == src@.len(),
            n * 4 <= src@.len(),
            n * 4 <= d0.len(),
            dst@.len() == d0.len(),
            forall|i: int| 0 <= i < p * 4 ==> dst@[i] == swapped_byte(src@, i),
            forall|i: int| p * 4 <= i < d0.len() ==> dst@[i] == d0[i],
        decreases n - p,
    {
        let idx = p * 4;
        let r = src[idx];
        let g = src[idx + 1];
        let b = src[idx + 2];
        let a = src[idx + 3];
        dst[idx] = b;
        dst[idx + 1] = g;
        dst[idx + 2] = r;
        dst[idx + 3] = a;
        proof {
            assert forall|i: int| 0 <= i < (p + 1) * 4 implies dst@[i] == swapped_byte(src@, i) by {
                if i >= idx {
                    assert(i == idx || i == idx + 1 || i == idx + 2 || i == idx + 3);
                    assert((idx + 1) % 4 == 1 && (idx + 2) % 4 == 2 && (idx + 3) % 4 == 3
                        && idx % 4 == 0);
                }
            }
        }
        p = p + 1;
    }
    assert(dst@ =~= swap_pixels(src@, d0, n as int));
}

/// Prepares the overlay's background in `canvas` (BGRA, `width * height`
/// pixels): copies the drawn panel `pixels` (RGBA) in when the buffer holds
/// all of them, and blurs it when `apply_blur` is set (see
/// `composed_background`).
pub fn compose_background(
    pixels: &[u8],
    canvas: &mut [u8],
    width: usize,
    height: usize,
    apply_blur: bool,
)
    requires
        width * height * 4 <= old(canvas)@.len(),
    ensures
        final(canvas)@ == composed_background(
            pixels@,
            old(canvas)@,
            width as int,
            height as int,
            apply_blur,
        ),
{
    let ghost c0 = canvas@;
    let canvas_len = canvas.len();
    assert(width * height <= width * height * 4) by (nonlinear_arith)
        requires
            width * height >= 0,
    ;
    let n = width * height;
    if pixels.len() >= n * 4 {
        copy_swapped(pixels, canvas, n);
    }
    let ghost copied = canvas@;
    let mut rgba = vec![0u8; canvas.len()];
    assert(rgba@ =~= zeroes(canvas_len as nat));
    copy_swapped(canvas, rgba.as_mut_slice(), n);
    if apply_blur {
        box_blur_multi_pass(rgba.as_mut_slice(), width, height, 12, 5);
    }
    copy_swapped(rgba.as_slice(), canvas, n);
}

/// Fills the canvas with the plain translucent background that is shown when
/// no panel could be drawn: every whole pixel becomes the bytes 200, 30, 30, 30.
pub fn fill_fallback_background(canvas: &mut [u8])
    ensures
        final(canvas)@.len() == old(canvas)@.len(),
        forall|i: int|
            0 <= i < old(canvas)@.len() / 4 * 4 ==> final(canvas)@[i] == (if i % 4 == 0 {
                200u8
            } else {
                30u8
            }),
        forall|i: int|
            old(canvas)@.len() / 4 * 4 <= i < old(canvas)@.len() ==> final(canvas)@[i]
                == old(canvas)@[i],
{
    let ghost c0 = canvas@;
    let canvas_len = canvas.len();
    let pixels = canvas_len / 4;
    let mut p: usize = 0;
    while p < pixels
        invariant
            p <= pixels,
            canvas_len == c0.len(),
            pixels == c0.len() / 4,
            canvas@.len() == c0.len(),
            forall|i: int| 0 <= i < p * 4 ==> canvas@[i] == (if i % 4 == 0 {
                200u8
            } else {
                30u8
            }),
            forall|i: int| p * 4 <= i < c0.len() ==> canvas@[i] == c0[i],
        decreases pixels - p,
    {
        let idx = p * 4;
        canvas[idx] = 200;
        canvas[idx + 1] = 30;
        canvas[idx + 2] = 30;
        canvas[idx + 3] = 30;
        proof {
            assert forall|i: int| 0 <= i < (p + 1) * 4 implies canvas@[i] == (if i % 4 == 0 {
                200u8
            } else {
                30u8
            }) by {
                if i >= idx {
                    assert((idx + 1) % 4 == 1 && (idx + 2) % 4 == 2 && (idx + 3) % 4 == 3
                        && idx % 4 == 0);
                }
            }
        }
        p = p + 1;
    }
}

} // verus!
