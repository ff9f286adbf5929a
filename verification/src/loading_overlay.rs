//! The loading overlay: a black window above the video with a centred
//! "Chargement…" label. This module decides when the window moves, maps,
//! unmaps and redraws, and where the label goes; the window itself
//! belongs to the caller.

use vstd::prelude::*;

verus! {

/// Geometry assumed before any is set.
pub const DEFAULT_AREA: (i32, i32, u32, u32) = (0, 0, 400, 300);

/// What the caller does to the window.
#[derive(Copy, Clone, PartialEq, Eq, Debug, Structural)]
pub struct OverlayOps {
    /// Move and resize it to the new geometry.
    pub move_resize: bool,
    /// Map it raised above the video.
    pub map: bool,
    /// Raise it above the video.
    pub raise: bool,
    /// Unmap it.
    pub unmap: bool,
    /// Draw the label again.
    pub redraw: bool,
}

/// The overlay's state.
pub struct LoadingOverlay {
    pub visible: bool,
    pub last_area: Option<(i32, i32, u32, u32)>,
}

/// Where the label's baseline starts: centred horizontally, and
/// vertically on its ascent + descent.
pub open spec fn label_origin_spec(w: u32, h: u32, text_w: i32, ascent: i32, descent: i32) -> (int, int) {
    (crate::planning::tdiv(w - text_w, 2), crate::planning::tdiv(h + ascent + descent, 2) - descent)
}

impl LoadingOverlay {
    /// Hidden, no geometry yet.
    pub fn new() -> (r: Self)
        ensures
            !r.visible,
            r.last_area is None,
    {
        LoadingOverlay { visible: false, last_area: None }
    }

    /// Place the overlay: nothing to do if the geometry is unchanged;
    /// otherwise move it, raising and redrawing it when visible.
    pub fn set_geometry(&mut self, x: i32, y: i32, width: u32, height: u32) -> (r: OverlayOps)
        ensures
            final(self).last_area == Some((x, y, width, height)),
            final(self).visible == old(self).visible,
            r == (if old(self).last_area == Some((x, y, width, height)) {
                OverlayOps { move_resize: false, map: false, raise: false, unmap: false, redraw: false }
            } else {
                OverlayOps {
                    move_resize: true,
                    map: false,
                    raise: old(self).visible,
                    unmap: false,
                    redraw: old(self).visible,
                }
            }),
    {
        let same = match self.last_area {
            Some((ox, oy, ow, oh)) => ox == x && oy == y && ow == width && oh == height,
            None => false,
        };
        if same {
            return OverlayOps { move_resize: false, map: false, raise: false, unmap: false, redraw: false };
        }
        self.last_area = Some((x, y, width, height));
        OverlayOps { move_resize: true, map: false, raise: self.visible, unmap: false, redraw: self.visible }
    }

    /// Show the overlay (map it raised and draw the label) unless shown.
    pub fn show(&mut self) -> (r: OverlayOps)
        ensures
            final(self).visible,
            final(self).last_area == old(self).last_area,
            r == (if old(self).visible {
                OverlayOps { move_resize: false, map: false, raise: false, unmap: false, redraw: false }
            } else {
                OverlayOps { move_resize: false, map: true, raise: false, unmap: false, redraw: true }
            }),
    {
        if self.visible {
            return OverlayOps { move_resize: false, map: false, raise: false, unmap: false, redraw: false };
        }
        self.visible = true;
        OverlayOps { move_resize: false, map: true, raise: false, unmap: false, redraw: true }
    }

    /// Hide the overlay unless hidden.
    pub fn hide_window(&mut self) -> (r: OverlayOps)
        ensures
            !final(self).visible,
            final(self).last_area == old(self).last_area,
            r == (OverlayOps { move_resize: false, map: false, raise: false, unmap: old(self).visible, redraw: false }),
    {
        let was = self.visible;
        self.visible = false;
        OverlayOps { move_resize: false, map: false, raise: false, unmap: was, redraw: false }
    }

    pub fn is_visible(&self) -> (r: bool)
        ensures
            r == self.visible,
    {
        self.visible
    }

    /// Where to draw the label, `text_w` pixels wide in a font of the
    /// given ascent and descent, in the current geometry (400 x 300 when
    /// none is set).
    pub fn label_origin(&self, text_w: i32, ascent: i32, descent: i32) -> (r: (i32, i32))
        requires
            0 <= text_w <= 100_000,
            0 <= ascent <= 100_000,
            0 <= descent <= 100_000,
            self.last_area matches Some((_, _, w, h)) ==> w <= i32::MAX && h <= 0x4000_0000,
        ensures
            ({
                let (_, _, w, h) = match self.last_area {
                    Some(a) => a,
                    None => DEFAULT_AREA,
                };
                (r.0 as int, r.1 as int) == label_origin_spec(w, h, text_w, ascent, descent)
            }),
    {
        let (_, _, w, h) = match self.last_area {
            Some(a) => a,
            None => DEFAULT_AREA,
        };
        let x = (w as i32 - text_w) / 2;
        let y = (h as i32 + ascent + descent) / 2 - descent;
        (x, y)
    }
}

} // verus!
