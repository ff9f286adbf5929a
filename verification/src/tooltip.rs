//! The channel-name tooltip next to the sidebar: what showing a text
//! does to its window (move only, or resize, map or raise and redraw)
//! and the window's size for a text. The window and the font belong to
//! the caller.

use vstd::prelude::*;
use crate::text::str_eq;
use vstd::string::*;

verus! {

/// Horizontal padding around the text, in pixels.
pub const PADDING_X: i32 = 10;
/// Vertical padding around the text, in pixels.
pub const PADDING_Y: i32 = 6;

/// What showing a text asks of the window.
pub enum TooltipShow {
    /// Same text already shown: only move the window.
    Move,
    /// Resize the window to `(width, height)` at the position, map it
    /// raised (`map`) or raise it, clear it and draw the text at
    /// `(PADDING_X, baseline)`.
    Draw { width: u32, height: u32, map: bool, baseline: i32 },
}

/// The tooltip's state.
pub struct TooltipOverlay {
    pub visible: bool,
    pub current_text: String,
}

/// Size of the window for a text `text_w` pixels wide in a font of the
/// given ascent and descent: padded, at least 20 x 18.
pub open spec fn tooltip_size(text_w: int, ascent: int, descent: int) -> (int, int) {
    let w = text_w + PADDING_X * 2;
    let h = ascent + descent + PADDING_Y * 2;
    (if w < 20 { 20 } else { w }, if h < 18 { 18 } else { h })
}

/// Width, ascent and descent used without a font: 7 pixels per byte of
/// the text, ascent 11, descent 3.
pub fn fallback_metrics(text: &str) -> (r: (i32, i32, i32))
    requires
        text.spec_bytes().len() * 7 <= i32::MAX,
    ensures
        r == ((text.spec_bytes().len() * 7) as i32, 11i32, 3i32),
{
    let n = text.len();
    ((n * 7) as i32, 11, 3)
}

impl TooltipOverlay {
    pub fn new() -> (r: Self)
        ensures
            !r.visible,
            r.current_text@.len() == 0,
    {
        TooltipOverlay { visible: false, current_text: String::new() }
    }

    /// Show `text`, measured `text_w` pixels wide in a font of the given
    /// ascent and descent (see `fallback_metrics` without a font).
    pub fn show(&mut self, text: &str, text_w: i32, ascent: i32, descent: i32) -> (r: TooltipShow)
        requires
            0 <= text_w <= 0x1000_0000,
            0 <= ascent <= 0x1000_0000,
            0 <= descent <= 0x1000_0000,
        ensures
            final(self).visible,
            final(self).current_text@ == text@,
            old(self).visible && old(self).current_text@ == text@ ==> r is Move,
            !(old(self).visible && old(self).current_text@ == text@) ==> ({
                let (w, h) = tooltip_size(text_w as int, ascent as int, descent as int);
                r matches TooltipShow::Draw { width, height, map, baseline } && width == w && height == h && map
                    == !old(self).visible && baseline == PADDING_Y + ascent
            }),
    {
        if self.visible && str_eq(text, self.current_text.as_str()) {
            return TooltipShow::Move;
        }
        self.current_text = crate::text::string_of(text);
        let w0 = text_w + PADDING_X * 2;
        let h0 = ascent + descent + PADDING_Y * 2;
        let w: i32 = if w0 < 20 { 20 } else { w0 };
        let h: i32 = if h0 < 18 { 18 } else { h0 };
        let map = !self.visible;
        self.visible = true;
        TooltipShow::Draw { width: w as u32, height: h as u32, map, baseline: PADDING_Y + ascent }
    }

    /// Hide the tooltip; returns whether its window must be unmapped.
    pub fn hide_window(&mut self) -> (unmap: bool)
        ensures
            unmap == old(self).visible,
            !final(self).visible,
            final(self).current_text == old(self).current_text,
    {
        let was = self.visible;
        self.visible = false;
        was
    }
}

} // verus!
