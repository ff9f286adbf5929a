//! The "now playing" badge over the top-left of the video: its layout
//! (avatar, name, favourite star), the star hit-test, its 4-second
//! visibility timer, and the pixel work that turns the avatar and star
//! images into what the X11 window shows. Times are monotonic
//! milliseconds supplied by the caller.

use vstd::prelude::*;
use crate::text::str_eq;

verus! {

pub const BADGE_HEIGHT: u32 = 36;
pub const AVATAR_SIZE: u32 = 28;
pub const PADDING_X: u32 = 6;
pub const AVATAR_TEXT_GAP: u32 = 8;
pub const TEXT_STAR_GAP: u32 = 8;
pub const STAR_SIZE: u32 = 18;
pub const TEXT_RIGHT_PADDING: u32 = 8;
/// How long the badge stays up after a channel change or a bump.
pub const VISIBLE_MS: u64 = 4000;

/// Left edge of the star for a channel name `text_width` pixels wide.
pub open spec fn star_x_spec(text_width: i32) -> int {
    PADDING_X + AVATAR_SIZE + AVATAR_TEXT_GAP + (if text_width > 0 {
        text_width as int
    } else {
        0
    }) + TEXT_STAR_GAP
}

/// Top edge of the star.
pub open spec fn star_y_spec() -> int {
    (BADGE_HEIGHT - STAR_SIZE) / 2
}

/// Window width of the badge: everything laid out, at least 80 px.
pub open spec fn badge_width_spec(text_width: i32) -> int {
    let w = star_x_spec(text_width) + STAR_SIZE + TEXT_RIGHT_PADDING;
    if w > 80 {
        w
    } else {
        80
    }
}

pub fn star_x(text_width: i32) -> (r: i32)
    requires
        text_width <= i32::MAX - 100,
    ensures
        r == star_x_spec(text_width),
{
    let tw: u32 = if text_width > 0 {
        text_width as u32
    } else {
        0
    };
    (PADDING_X + AVATAR_SIZE + AVATAR_TEXT_GAP + tw + TEXT_STAR_GAP) as i32
}

pub fn badge_width(text_width: i32) -> (r: u32)
    requires
        text_width <= i32::MAX - 100,
    ensures
        r == badge_width_spec(text_width),
{
    let tw: u32 = if text_width > 0 {
        text_width as u32
    } else {
        0
    };
    let w = PADDING_X + AVATAR_SIZE + AVATAR_TEXT_GAP + tw + TEXT_STAR_GAP + STAR_SIZE
        + TEXT_RIGHT_PADDING;
    if w > 80 {
        w
    } else {
        80
    }
}

/// A left click at `(x, y)` lands on the star.
pub fn star_hit(text_width: i32, button: u32, x: i32, y: i32) -> (r: bool)
    requires
        text_width <= i32::MAX - 100,
    ensures
        r == (button == 1 && star_x_spec(text_width) <= x < star_x_spec(text_width) + STAR_SIZE
            && star_y_spec() <= y < star_y_spec() + STAR_SIZE),
{
    if button != 1 {
        return false;
    }
    let sx = star_x(text_width);
    let sy = ((BADGE_HEIGHT - STAR_SIZE) / 2) as i32;
    x >= sx && x < sx + STAR_SIZE as i32 && y >= sy && y < sy + STAR_SIZE as i32
}

/// The badge's state: what it shows, whether it is mapped, and when its
/// visibility timer was last (re)started.
pub struct ChannelBadge {
    pub visible: bool,
    pub last_origin: Option<(i32, i32)>,
    /// (text, avatar bytes) — re-rendered whenever this changes.
    pub current: Option<(String, Vec<u8>)>,
    /// `current` changed since the cached images were computed.
    pub dirty: bool,
    pub shown_at: Option<u64>,
    pub is_favorite: bool,
    pub star_clicked: bool,
    /// Width in pixels of the channel name as last measured.
    pub text_width: i32,
}

/// The same channel as shown: same name, same avatar bytes.
pub open spec fn same_channel(current: Option<(String, Vec<u8>)>, name: Seq<char>, avatar: Seq<u8>) -> bool {
    match current {
        Some(c) => c.0@ == name && c.1@ == avatar,
        None => false,
    }
}

impl ChannelBadge {
    pub fn new() -> (r: Self)
        ensures
            !r.visible,
            r.last_origin is None,
            r.current is None,
            !r.dirty,
            r.shown_at is None,
            !r.is_favorite,
            !r.star_clicked,
            r.text_width == 0,
    {
        ChannelBadge {
            visible: false,
            last_origin: None,
            current: None,
            dirty: false,
            shown_at: None,
            is_favorite: false,
            star_clicked: false,
            text_width: 0,
        }
    }

    /// Update the displayed channel and favourite state at time `now_ms`.
    /// A different channel is stored and marked for re-rendering; in
    /// every case the visibility timer restarts.
    pub fn set_channel(&mut self, name: String, avatar_bytes: Vec<u8>, is_favorite: bool, now_ms: u64)
        ensures
            final(self).is_favorite == is_favorite,
            final(self).shown_at == Some(now_ms),
            same_channel(old(self).current, name@, avatar_bytes@) ==> {
                &&& final(self).current == old(self).current
                &&& final(self).dirty == old(self).dirty
            },
            !same_channel(old(self).current, name@, avatar_bytes@) ==> {
                &&& final(self).current == Some((name, avatar_bytes))
                &&& final(self).dirty
            },
            final(self).visible == old(self).visible,
            final(self).last_origin == old(self).last_origin,
            final(self).star_clicked == old(self).star_clicked,
            final(self).text_width == old(self).text_width,
    {
        let same = match &self.current {
            Some((n, b)) => str_eq(n.as_str(), name.as_str()) && bytes_eq(b, &avatar_bytes),
            None => false,
        };
        self.is_favorite = is_favorite;
        if !same {
            self.current = Some((name, avatar_bytes));
            self.dirty = true;
        }
        self.shown_at = Some(now_ms);
    }

    /// Record the button presses on the badge window since the last call
    /// (`(button, x, y)` each) and report whether the star was clicked.
    pub fn poll_star_click(&mut self, presses: &Vec<(u32, i32, i32)>) -> (clicked: bool)
        requires
            old(self).text_width <= i32::MAX - 100,
        ensures
            clicked == (old(self).star_clicked || exists|i: int|
                0 <= i < presses@.len() && {
                    let p = #[trigger] presses@[i];
                    p.0 == 1 && star_x_spec(old(self).text_width) <= p.1 < star_x_spec(old(self).text_width) + STAR_SIZE
                        && star_y_spec() <= p.2 < star_y_spec() + STAR_SIZE
                }),
            !final(self).star_clicked,
            final(self).visible == old(self).visible,
            final(self).current == old(self).current,
            final(self).shown_at == old(self).shown_at,
            final(self).text_width == old(self).text_width,
            final(self).is_favorite == old(self).is_favorite,
    {
        let mut i: usize = 0;
        while i < presses.len()
            invariant
                i <= presses@.len(),
                self.text_width == old(self).text_width,
                self.text_width <= i32::MAX - 100,
                self.visible == old(self).visible,
                self.current == old(self).current,
                self.shown_at == old(self).shown_at,
                self.is_favorite == old(self).is_favorite,
                self.star_clicked == (old(self).star_clicked || exists|k: int|
                    0 <= k < i && {
                        let p = #[trigger] presses@[k];
                        p.0 == 1 && star_x_spec(old(self).text_width) <= p.1 < star_x_spec(old(self).text_width) + STAR_SIZE
                            && star_y_spec() <= p.2 < star_y_spec() + STAR_SIZE
                    }),
            decreases presses@.len() - i,
        {
            let (button, x, y) = presses[i];
            if star_hit(self.text_width, button, x, y) {
                self.star_clicked = true;
            }
            i = i + 1;
        }
        let was = self.star_clicked;
        self.star_clicked = false;
        was
    }

    /// The badge has been up for less than four seconds at `now_ms`.
    pub fn should_be_visible(&self, now_ms: u64) -> (r: bool)
        ensures
            r == (match self.shown_at {
                Some(t) => (if now_ms >= t {
                    now_ms - t
                } else {
                    0
                }) < VISIBLE_MS,
                None => false,
            }),
    {
        match self.shown_at {
            Some(t) => {
                let elapsed = if now_ms >= t {
                    now_ms - t
                } else {
                    0
                };
                elapsed < VISIBLE_MS
            },
            None => false,
        }
    }

    /// Restart the visibility timer (mouse over the video).
    pub fn bump(&mut self, now_ms: u64)
        ensures
            final(self).shown_at == Some(now_ms),
            final(self).visible == old(self).visible,
            final(self).current == old(self).current,
            final(self).dirty == old(self).dirty,
            final(self).text_width == old(self).text_width,
            final(self).is_favorite == old(self).is_favorite,
            final(self).star_clicked == old(self).star_clicked,
            final(self).last_origin == old(self).last_origin,
    {
        self.shown_at = Some(now_ms);
    }

    /// Map the badge. Returns true if the window has to be mapped.
    pub fn show(&mut self) -> (map: bool)
        ensures
            map == !old(self).visible,
            final(self).visible,
            final(self).current == old(self).current,
            final(self).shown_at == old(self).shown_at,
            final(self).text_width == old(self).text_width,
            final(self).last_origin == old(self).last_origin,
    {
        let map = !self.visible;
        self.visible = true;
        map
    }

    pub fn is_visible(&self) -> (r: bool)
        ensures
            r == self.visible,
    {
        self.visible
    }

    /// Unmap the badge. Returns true if the window has to be unmapped.
    pub fn hide_window(&mut self) -> (unmap: bool)
        ensures
            unmap == old(self).visible,
            !final(self).visible,
            final(self).current == old(self).current,
            final(self).shown_at == old(self).shown_at,
            final(self).text_width == old(self).text_width,
            final(self).last_origin == old(self).last_origin,
    {
        let unmap = self.visible;
        self.visible = false;
        unmap
    }

    /// One frame of the player view: a modal hides the badge; otherwise
    /// it is placed at `(x, y)` (see `place`) and shown while its timer
    /// runs, hidden after. Returns `(width if placed, map, unmap)`.
    pub fn refresh(&mut self, video_hidden: bool, x: i32, y: i32, measured_text_width: i32, now_ms: u64) -> (r: (Option<u32>, bool, bool))
        requires
            old(self).text_width <= i32::MAX - 100,
            measured_text_width <= i32::MAX - 100,
        ensures
            video_hidden ==> r == (None::<u32>, false, old(self).visible) && !final(self).visible
                && final(self).text_width == old(self).text_width,
            !video_hidden ==> {
                let tw = if old(self).dirty && old(self).current is Some {
                    measured_text_width
                } else {
                    old(self).text_width
                };
                let shown = match old(self).shown_at {
                    Some(t) => (if now_ms >= t { now_ms - t } else { 0 }) < VISIBLE_MS,
                    None => false,
                };
                &&& r.0 == Some(badge_width_spec(tw) as u32)
                &&& final(self).text_width == tw
                &&& final(self).last_origin == Some((x, y))
                &&& final(self).visible == shown
                &&& r.1 == (shown && !old(self).visible)
                &&& r.2 == (!shown && old(self).visible)
            },
            final(self).current == old(self).current,
            final(self).shown_at == old(self).shown_at,
    {
        if video_hidden {
            let unmap = self.hide_window();
            return (None, false, unmap);
        }
        let w = self.place(x, y, measured_text_width);
        if self.should_be_visible(now_ms) {
            let map = self.show();
            (Some(w), map, false)
        } else if self.is_visible() {
            let unmap = self.hide_window();
            (Some(w), false, unmap)
        } else {
            (Some(w), false, false)
        }
    }

    /// Position the badge at `(x, y)`. When the channel changed, the
    /// name's new width `measured_text_width` (measured by the caller)
    /// replaces the cached one first. Returns the window width.
    pub fn place(&mut self, x: i32, y: i32, measured_text_width: i32) -> (w: u32)
        requires
            old(self).text_width <= i32::MAX - 100,
            measured_text_width <= i32::MAX - 100,
        ensures
            final(self).text_width == (if old(self).dirty && old(self).current is Some {
                measured_text_width
            } else {
                old(self).text_width
            }),
            !final(self).dirty,
            w == badge_width_spec(final(self).text_width),
            final(self).last_origin == Some((x, y)),
            final(self).visible == old(self).visible,
            final(self).current == old(self).current,
            final(self).shown_at == old(self).shown_at,
    {
        if self.dirty {
            self.dirty = false;
            if self.current.is_some() {
                self.text_width = measured_text_width;
            }
        }
        let w = badge_width(self.text_width);
        self.last_origin = Some((x, y));
        w
    }
}

fn bytes_eq(a: &Vec<u8>, b: &Vec<u8>) -> (r: bool)
    ensures
        r == (a@ == b@),
{
    if a.len() != b.len() {
        return false;
    }
    let mut i: usize = 0;
    while i < a.len()
        invariant
            a@.len() == b@.len(),
            i <= a@.len(),
            forall|k: int| 0 <= k < i ==> a@[k] == b@[k],
        decreases a@.len() - i,
    {
        if a[i] != b[i] {
            return false;
        }
        i = i + 1;
    }
    assert(a@ =~= b@);
    true
}

// ---------------------------------------------------------------------
// Pixels
// ---------------------------------------------------------------------

/// `(c * a) / 255` of the premultiplication, for bytes.
pub open spec fn premul(c: u8, a: u8) -> u8 {
    ((c as int * a as int) / 255) as u8
}

/// Background of the badge the images are blended onto.
pub const BG_R: u8 = 0x26;
pub const BG_G: u8 = 0x26;
pub const BG_B: u8 = 0x2B;

/// One channel of a premultiplied source over the badge background,
/// saturated to 255.
pub open spec fn over_bg(src: u8, bg: u8, a: u8) -> u8 {
    let v = src as int + (bg as int * (255 - a as int)) / 255;
    if v > 255 {
        255
    } else {
        v as u8
    }
}

/// Blend a premultiplied RGBA square of `size × size` pixels onto the
/// badge background, giving the BGRA bytes (alpha 0xFF) that the window
/// takes.
pub fn blend_onto_badge(rgba: &Vec<u8>, size: u32) -> (bgra: Vec<u8>)
    requires
        size as int * size as int * 4 <= rgba@.len(),
    ensures
        bgra@.len() == size as int * size as int * 4,
        forall|i: int|
            0 <= i < size as int * size as int ==> {
                let r = rgba@[4 * i];
                let g = rgba@[4 * i + 1];
                let b = rgba@[4 * i + 2];
                let a = rgba@[4 * i + 3];
                &&& #[trigger] bgra@[4 * i] == over_bg(b, BG_B, a)
                &&& bgra@[4 * i + 1] == over_bg(g, BG_G, a)
                &&& bgra@[4 * i + 2] == over_bg(r, BG_R, a)
                &&& bgra@[4 * i + 3] == 0xFF
            },
{
    let total = rgba.len();
    assert(size as int * size as int <= usize::MAX) by (nonlinear_arith)
        requires
            size as int * size as int * 4 <= total,
            total <= usize::MAX,
    ;
    let len: usize = (size as usize) * (size as usize);
    let mut out: Vec<u8> = Vec::new();
    let mut i: usize = 0;
    while i < len
        invariant
            len == size as int * size as int,
            len * 4 <= rgba@.len(),
            total == rgba@.len(),
            total <= usize::MAX,
            i <= len,
            out@.len() == 4 * i,
            forall|j: int|
                0 <= j < i ==> {
                    let r = rgba@[4 * j];
                    let g = rgba@[4 * j + 1];
                    let b = rgba@[4 * j + 2];
                    let a = rgba@[4 * j + 3];
                    &&& #[trigger] out@[4 * j] == over_bg(b, BG_B, a)
                    &&& out@[4 * j + 1] == over_bg(g, BG_G, a)
                    &&& out@[4 * j + 2] == over_bg(r, BG_R, a)
                    &&& out@[4 * j + 3] == 0xFF
                },
        decreases len - i,
    {
        let r = rgba[i * 4];
        let g = rgba[i * 4 + 1];
        let b = rgba[i * 4 + 2];
        let a = rgba[i * 4 + 3];
        let inv: u16 = 255u16 - a as u16;
        assert(inv <= 255);
        let ghost prev = out@;
        let or: u16 = r as u16 + (0x26u16 * inv) / 255;
        let og: u16 = g as u16 + (0x26u16 * inv) / 255;
        let ob: u16 = b as u16 + (0x2Bu16 * inv) / 255;
        out.push(if ob > 255 {
            255
        } else {
            ob as u8
        });
        out.push(if og > 255 {
            255
        } else {
            og as u8
        });
        out.push(if or > 255 {
            255
        } else {
            or as u8
        });
        out.push(0xFF);
        proof {
            assert(out@[4 * i as int] == over_bg(b, BG_B, a));
            assert(out@[4 * i + 1] == over_bg(g, BG_G, a));
            assert(out@[4 * i + 2] == over_bg(r, BG_R, a));
            assert forall|j: int| 0 <= j < i + 1 implies {
                let r = rgba@[4 * j];
                let g = rgba@[4 * j + 1];
                let b = rgba@[4 * j + 2];
                let a = rgba@[4 * j + 3];
                &&& #[trigger] out@[4 * j] == over_bg(b, BG_B, a)
                &&& out@[4 * j + 1] == over_bg(g, BG_G, a)
                &&& out@[4 * j + 2] == over_bg(r, BG_R, a)
                &&& out@[4 * j + 3] == 0xFF
            } by {
                if j < i {
                    assert(out@[4 * j] == prev[4 * j]);
                    assert(out@[4 * j + 1] == prev[4 * j + 1]);
                    assert(out@[4 * j + 2] == prev[4 * j + 2]);
                    assert(out@[4 * j + 3] == prev[4 * j + 3]);
                }
            }
        }
        i = i + 1;
    }
    out
}

/// The circle mask of an avatar of `size` pixels: pixel `(x, y)` lies
/// outside the inscribed circle. This is the exact value of the test
/// `|(x + ½, y + ½) − (size/2, size/2)| > size/2`, written on integers
/// (doubled coordinates).
pub open spec fn outside_circle(x: int, y: int, size: int) -> bool {
    (2 * x + 1 - size) * (2 * x + 1 - size) + (2 * y + 1 - size) * (2 * y + 1 - size) > size * size
}

/// Byte `k` of a `size × size` RGBA avatar after masking it to a circle
/// and premultiplying it (see `mask_and_premultiply`).
pub open spec fn masked_byte(raw: Seq<u8>, size: int, k: int) -> u8 {
    if k < size * size * 4 {
        let p = k / 4;
        let c = k % 4;
        if outside_circle(p % size, p / size, size) {
            0
        } else if c == 3 {
            raw[k]
        } else {
            premul(raw[k], raw[4 * p + 3])
        }
    } else {
        raw[k]
    }
}

/// The whole masked avatar.
pub open spec fn masked_avatar(raw: Seq<u8>, size: int) -> Seq<u8> {
    Seq::new(raw.len(), |k: int| masked_byte(raw, size, k))
}

proof fn lemma_masked_avatar(raw: Seq<u8>, out: Seq<u8>, size: int)
    requires
        0 < size,
        out.len() == raw.len(),
        raw.len() >= size * size * 4,
        forall|k: int| size * size * 4 <= k < raw.len() ==> #[trigger] out[k] == raw[k],
        forall|y: int, x: int|
            0 <= y < size && 0 <= x < size ==> {
                let i = #[trigger] ((y * size + x) * 4);
                if outside_circle(x, y, size) {
                    &&& out[i] == 0
                    &&& out[i + 1] == 0
                    &&& out[i + 2] == 0
                    &&& out[i + 3] == 0
                } else {
                    let a = raw[i + 3];
                    &&& out[i] == premul(raw[i], a)
                    &&& out[i + 1] == premul(raw[i + 1], a)
                    &&& out[i + 2] == premul(raw[i + 2], a)
                    &&& out[i + 3] == a
                }
            },
    ensures
        out == masked_avatar(raw, size),
{
    assert forall|k: int| 0 <= k < raw.len() implies #[trigger] out[k] == masked_byte(raw, size, k) by {
        if k < size * size * 4 {
            let p = k / 4;
            let c = k % 4;
            let y = p / size;
            let x = p % size;
            vstd::arithmetic::div_mod::lemma_fundamental_div_mod(k, 4);
            vstd::arithmetic::div_mod::lemma_fundamental_div_mod(p, size);
            assert(0 <= p < size * size) by (nonlinear_arith)
                requires
                    0 <= k < size * size * 4,
                    k == 4 * p + c,
                    0 <= c < 4,
            ;
            assert(0 <= y < size) by (nonlinear_arith)
                requires
                    0 <= p < size * size,
                    p == size * y + x,
                    0 <= x < size,
            ;
            assert((y * size + x) * 4 == 4 * p) by (nonlinear_arith)
                requires
                    p == size * y + x,
            ;
            let i = (y * size + x) * 4;
            assert(k == i + c);
        }
    }
    assert(out =~= masked_avatar(raw, size));
}

/// Mask a decoded `size × size` RGBA avatar to a circle and premultiply
/// it: pixels outside the circle become transparent black, the others
/// get their colour scaled by their alpha.
pub fn mask_and_premultiply(rgba: Vec<u8>, size: u32) -> (out: Vec<u8>)
    requires
        size <= 32768,
        rgba@.len() >= size as int * size as int * 4,
    ensures
        size > 0 ==> out@ == masked_avatar(rgba@, size as int),
        out@.len() == rgba@.len(),
        forall|k: int|
            size as int * size as int * 4 <= k < rgba@.len() ==> #[trigger] out@[k] == rgba@[k],
        forall|y: int, x: int|
            0 <= y < size && 0 <= x < size ==> {
                let i = #[trigger] ((y * size + x) * 4);
                if outside_circle(x, y, size as int) {
                    &&& out@[i] == 0
                    &&& out@[i + 1] == 0
                    &&& out@[i + 2] == 0
                    &&& out@[i + 3] == 0
                } else {
                    let a = rgba@[i + 3];
                    &&& out@[i] == premul(rgba@[i], a)
                    &&& out@[i + 1] == premul(rgba@[i + 1], a)
                    &&& out@[i + 2] == premul(rgba@[i + 2], a)
                    &&& out@[i + 3] == a
                }
            },
{
    let mut out = rgba;
    let ghost orig = out@;
    let total = out.len();
    let n = size as i64;
    let mut y: u32 = 0;
    while y < size
        invariant
            size <= 32768,
            n == size,
            orig.len() >= size as int * size as int * 4,
            out@.len() == orig.len(),
            total == orig.len(),
            total <= usize::MAX,
            y <= size,
            forall|k: int| (y as int) * size * 4 <= k < orig.len() ==> #[trigger] out@[k] == orig[k],
            forall|yy: int, x: int|
                0 <= yy < y && 0 <= x < size ==> {
                    let i = #[trigger] ((yy * size + x) * 4);
                    if outside_circle(x, yy, size as int) {
                        &&& out@[i] == 0
                        &&& out@[i + 1] == 0
                        &&& out@[i + 2] == 0
                        &&& out@[i + 3] == 0
                    } else {
                        let a = orig[i + 3];
                        &&& out@[i] == premul(orig[i], a)
                        &&& out@[i + 1] == premul(orig[i + 1], a)
                        &&& out@[i + 2] == premul(orig[i + 2], a)
                        &&& out@[i + 3] == a
                    }
                },
        decreases size - y,
    {
        let mut x: u32 = 0;
        while x < size
            invariant
                size <= 32768,
                n == size,
                orig.len() >= size as int * size as int * 4,
                out@.len() == orig.len(),
                total == orig.len(),
                total <= usize::MAX,
                y < size,
                x <= size,
                forall|k: int| (y as int * size + x) * 4 <= k < orig.len() ==> #[trigger] out@[k] == orig[k],
                forall|yy: int, xx: int|
                    (0 <= yy < y && 0 <= xx < size) || (yy == y && 0 <= xx < x) ==> {
                        let i = #[trigger] ((yy * size + xx) * 4);
                        if outside_circle(xx, yy, size as int) {
                            &&& out@[i] == 0
                            &&& out@[i + 1] == 0
                            &&& out@[i + 2] == 0
                            &&& out@[i + 3] == 0
                        } else {
                            let a = orig[i + 3];
                            &&& out@[i] == premul(orig[i], a)
                            &&& out@[i + 1] == premul(orig[i + 1], a)
                            &&& out@[i + 2] == premul(orig[i + 2], a)
                            &&& out@[i + 3] == a
                        }
                    },
            decreases size - x,
        {
            proof {
                assert((y as int * size + x) * 4 + 4 <= size as int * size as int * 4) by (nonlinear_arith)
                    requires
                        y < size,
                        x < size,
                ;
            }
            let i: usize = ((y as usize) * (size as usize) + (x as usize)) * 4;
            let dx: i64 = 2 * (x as i64) + 1 - n;
            let dy: i64 = 2 * (y as i64) + 1 - n;
            proof {
                assert(dx * dx <= 32769 * 32769) by (nonlinear_arith)
                    requires
                        -32769 <= dx <= 32769,
                ;
                assert(dy * dy <= 32769 * 32769) by (nonlinear_arith)
                    requires
                        -32769 <= dy <= 32769,
                ;
                assert(0 <= dx * dx && 0 <= dy * dy) by (nonlinear_arith);
                assert(n * n <= 32768 * 32768) by (nonlinear_arith)
                    requires
                        0 <= n <= 32768,
                ;
            }
            if dx * dx + dy * dy > n * n {
                out.set(i, 0);
                out.set(i + 1, 0);
                out.set(i + 2, 0);
                out.set(i + 3, 0);
            } else {
                let a = out[i + 3] as u16;
                assert(out[i as int] as u16 * a <= 65025 && out[i + 1] as u16 * a <= 65025 && out[i + 2] as u16 * a <= 65025) by (nonlinear_arith)
                    requires
                        out[i as int] <= 255,
                        out[i + 1] <= 255,
                        out[i + 2] <= 255,
                        a <= 255,
                ;
                let r = ((out[i] as u16 * a) / 255) as u8;
                let g = ((out[i + 1] as u16 * a) / 255) as u8;
                let b = ((out[i + 2] as u16 * a) / 255) as u8;
                out.set(i, r);
                out.set(i + 1, g);
                out.set(i + 2, b);
            }
            proof {
                assert forall|yy: int, xx: int|
                    (0 <= yy < y && 0 <= xx < size) || (yy == y && 0 <= xx < x + 1) implies {
                        let j = #[trigger] ((yy * size + xx) * 4);
                        if outside_circle(xx, yy, size as int) {
                            &&& out@[j] == 0
                            &&& out@[j + 1] == 0
                            &&& out@[j + 2] == 0
                            &&& out@[j + 3] == 0
                        } else {
                            let a = orig[j + 3];
                            &&& out@[j] == premul(orig[j], a)
                            &&& out@[j + 1] == premul(orig[j + 1], a)
                            &&& out@[j + 2] == premul(orig[j + 2], a)
                            &&& out@[j + 3] == a
                        }
                    } by {
                    if yy == y && xx == x {
                    } else {
                        assert((yy * size + xx) * 4 + 4 <= i) by (nonlinear_arith)
                            requires
                                (0 <= yy < y && 0 <= xx < size) || (yy == y && 0 <= xx < x),
                                i == (y * size + x) * 4,
                                size > 0,
                        ;
                    }
                }
            }
            x = x + 1;
        }
        proof {
            assert((y as int * size + size) * 4 == (y as int + 1) * size * 4) by (nonlinear_arith);
        }
        y = y + 1;
    }
    proof {
        if size > 0 {
            lemma_masked_avatar(orig, out@, size as int);
        }
    }
    out
}

/// Recolour a premultiplied RGBA buffer to `(r, g, b)`, keeping each
/// pixel's alpha: non-transparent pixels get the colour premultiplied by
/// their alpha; transparent pixels and a trailing partial pixel are left
/// as they are.
#[verifier::spinoff_prover]
pub fn recolor_premultiplied(data: Vec<u8>, r: u8, g: u8, b: u8) -> (out: Vec<u8>)
    ensures
        out@.len() == data@.len(),
        forall|k: int| (data@.len() / 4) * 4 <= k < data@.len() ==> #[trigger] out@[k] == data@[k],
        forall|p: int|
            0 <= p < data@.len() / 4 ==> {
                let a = data@[4 * p + 3];
                &&& #[trigger] out@[4 * p + 3] == a
                &&& if a == 0 {
                    &&& out@[4 * p] == data@[4 * p]
                    &&& out@[4 * p + 1] == data@[4 * p + 1]
                    &&& out@[4 * p + 2] == data@[4 * p + 2]
                } else {
                    &&& out@[4 * p] == premul(r, a)
                    &&& out@[4 * p + 1] == premul(g, a)
                    &&& out@[4 * p + 2] == premul(b, a)
                }
            },
{
    let mut out = data;
    let ghost orig = out@;
    let total = out.len();
    let n = total / 4;
    let mut p: usize = 0;
    while p < n
        invariant
            total == orig.len(),
            n == orig.len() / 4,
            out@.len() == orig.len(),
            p <= n,
            forall|k: int| 4 * p <= k < orig.len() ==> #[trigger] out@[k] == orig[k],
            forall|q: int|
                0 <= q < p ==> {
                    let a = orig[4 * q + 3];
                    &&& #[trigger] out@[4 * q + 3] == a
                    &&& if a == 0 {
                        &&& out@[4 * q] == orig[4 * q]
                        &&& out@[4 * q + 1] == orig[4 * q + 1]
                        &&& out@[4 * q + 2] == orig[4 * q + 2]
                    } else {
                        &&& out@[4 * q] == premul(r, a)
                        &&& out@[4 * q + 1] == premul(g, a)
                        &&& out@[4 * q + 2] == premul(b, a)
                    }
                },
        decreases n - p,
    {
        let i = p * 4;
        let a = out[i + 3];
        let ghost before = out@;
        if a != 0 {
            assert(r as u16 * a as u16 <= 65025 && g as u16 * a as u16 <= 65025 && b as u16 * a as u16 <= 65025) by (nonlinear_arith)
                requires
                    r <= 255,
                    g <= 255,
                    b <= 255,
                    a <= 255,
            ;
            out.set(i, ((r as u16 * a as u16) / 255) as u8);
            out.set(i + 1, ((g as u16 * a as u16) / 255) as u8);
            out.set(i + 2, ((b as u16 * a as u16) / 255) as u8);
        }
        proof {
            assert forall|k: int| 0 <= k < out@.len() && !(i <= k < i + 3) implies #[trigger] out@[k] == before[k] by {}
            assert forall|q: int| 0 <= q < p + 1 implies {
                let aa = orig[4 * q + 3];
                &&& #[trigger] out@[4 * q + 3] == aa
                &&& if aa == 0 {
                    &&& out@[4 * q] == orig[4 * q]
                    &&& out@[4 * q + 1] == orig[4 * q + 1]
                    &&& out@[4 * q + 2] == orig[4 * q + 2]
                } else {
                    &&& out@[4 * q] == premul(r, aa)
                    &&& out@[4 * q + 1] == premul(g, aa)
                    &&& out@[4 * q + 2] == premul(b, aa)
                }
            } by {
                if q == p {
                    assert(out@[4 * q + 3] == orig[4 * q + 3]);
                } else {
                    assert(out@[4 * q] == before[4 * q]);
                    assert(out@[4 * q + 1] == before[4 * q + 1]);
                    assert(out@[4 * q + 2] == before[4 * q + 2]);
                    assert(out@[4 * q + 3] == before[4 * q + 3]);
                }
            }
        }
        p = p + 1;
    }
    out
}

/// The square RGBA image that the `image` crate decodes from `bytes`,
/// resized to fill `size × size` (triangle filter) and converted to
/// 8-bit RGBA, as raw bytes; `None` when the bytes do not decode.
pub uninterp spec fn decoded_square_rgba(bytes: Seq<u8>, size: u32) -> Option<Seq<u8>>;

/// Calls `image::load_from_memory`, `DynamicImage::resize_to_fill` with
/// `FilterType::Triangle`, `to_rgba8` and `into_raw`; the result is
/// named by `decoded_square_rgba`, nothing more is claimed of it.
#[verifier::external_body]
fn decode_square_rgba(bytes: &[u8], size: u32) -> (r: Option<Vec<u8>>)
    ensures
        r matches Some(v) ==> decoded_square_rgba(bytes@, size) == Some(v@),
        r is None ==> decoded_square_rgba(bytes@, size) is None,
{
    let img = image::load_from_memory(bytes).ok()?;
    let resized = img.resize_to_fill(size, size, image::imageops::FilterType::Triangle);
    Some(resized.to_rgba8().into_raw())
}

/// Decode JPG/PNG avatar bytes, resize to `size × size`, mask to a
/// circle and premultiply (see `mask_and_premultiply`). `None` when the
/// bytes do not decode, or decode to fewer than `size²` pixels.
pub fn decode_and_resize(bytes: &[u8], size: u32) -> (r: Option<Vec<u8>>)
    requires
        size <= 32768,
    ensures
        decoded_square_rgba(bytes@, size) is None ==> r is None,
        decoded_square_rgba(bytes@, size) matches Some(raw) ==> (r is Some <==> raw.len()
            >= size as int * size as int * 4),
        size > 0 ==> (r matches Some(v) ==> v@ == masked_avatar(decoded_square_rgba(bytes@, size)->0, size as int)),
{
    let raw = decode_square_rgba(bytes, size)?;
    assert(size as int * size as int * 4 <= 4 * 32768 * 32768) by (nonlinear_arith)
        requires
            size <= 32768,
    ;
    let need: u64 = (size as u64) * (size as u64) * 4;
    if (raw.len() as u64) < need {
        return None;
    }
    Some(mask_and_premultiply(raw, size))
}

} // verus!
