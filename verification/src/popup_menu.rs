//! The popup menu drawn over the video (captions / audio / quality): its
//! state, how it opens above its anchor, scrolls, tracks the hovered row
//! and turns a click into a selection. The X11 window that shows it
//! feeds it the window's events and draws what it describes.

use vstd::prelude::*;

verus! {

#[derive(Copy, Clone, PartialEq, Eq, Debug, Structural)]
pub enum MenuKind {
    Captions,
    Audio,
    Quality,
}

#[derive(Copy, Clone, PartialEq, Eq, Debug, Structural)]
pub enum MenuEvent {
    /// User clicked the item at `index` in the currently-open menu of `kind`.
    Selected { kind: MenuKind, index: usize },
}

pub const ROW_H: i32 = 32;
pub const PAD_X: i32 = 12;
pub const PAD_Y: i32 = 6;
pub const MIN_WIDTH: i32 = 200;
pub const MAX_VISIBLE_ROWS: usize = 10;

/// Where and how large the menu window is to be, and whether it must be
/// mapped (it was hidden) or only raised.
#[derive(Copy, Clone, PartialEq, Eq, Debug, Structural)]
pub struct MenuPlacement {
    pub x: i32,
    pub y: i32,
    pub width: u32,
    pub height: u32,
    pub map: bool,
}

/// The scrollbar drawn at the right edge when the list overflows.
#[derive(Copy, Clone, PartialEq, Eq, Debug, Structural)]
pub struct Scrollbar {
    pub track_x: i32,
    pub track_top: i32,
    pub track_h: i32,
    pub thumb_y: i32,
    pub thumb_h: i32,
}

/// One row to draw: its position among the visible rows, the item index,
/// and whether it is hovered / selected.
#[derive(Copy, Clone, PartialEq, Eq, Debug, Structural)]
pub struct MenuRow {
    pub visible_idx: usize,
    pub index: usize,
    pub hover: bool,
    pub selected: bool,
}

/// An X event on the menu window, as the menu reads it.
#[derive(Copy, Clone, PartialEq, Eq, Debug, Structural)]
pub enum MenuInput {
    Expose,
    ButtonPress { button: u32, y: i32 },
    Motion { y: i32 },
    Leave,
}

/// What the window has to do after an event: redraw, and/or deliver a
/// selection.
#[derive(Copy, Clone, PartialEq, Eq, Debug, Structural)]
pub struct MenuReaction {
    pub redraw: bool,
    pub event: Option<MenuEvent>,
}

pub struct PopupMenu {
    visible: bool,
    kind: MenuKind,
    items: Vec<String>,
    selected_idx: Option<usize>,
    hover_idx: Option<usize>,
    /// Index of the first visible row (for scrolling).
    scroll_offset: usize,
    /// Number of rows actually rendered (≤ items.len(), ≤ MAX_VISIBLE_ROWS).
    visible_rows: usize,
    width: u32,
    height: u32,
}

pub open spec fn min_nat(a: nat, b: nat) -> nat {
    if a < b {
        a
    } else {
        b
    }
}

/// Largest of `widths` and 0.
pub open spec fn max_width(widths: Seq<i32>) -> int
    decreases widths.len(),
{
    if widths.len() == 0 {
        0
    } else {
        let m = max_width(widths.drop_last());
        if widths.last() > m {
            widths.last() as int
        } else {
            m
        }
    }
}

/// The row under window y-coordinate `y` for a menu scrolled to
/// `scroll` with `rows` visible rows and `len` items.
pub open spec fn row_at_spec(y: int, scroll: nat, rows: nat, len: nat) -> Option<nat> {
    let yy = y - PAD_Y;
    if yy < 0 {
        None
    } else if yy / (ROW_H as int) >= rows {
        None
    } else if scroll + yy / (ROW_H as int) < len {
        Some((scroll + yy / (ROW_H as int)) as nat)
    } else {
        None
    }
}

/// First visible row after opening with `selected`: the selection stays
/// on screen, otherwise the list starts at the top.
pub open spec fn initial_scroll(selected: Option<usize>, rows: nat) -> nat {
    match selected {
        Some(i) => if i >= rows {
            (i + 1 - rows) as nat
        } else {
            0
        },
        None => 0,
    }
}

impl PopupMenu {
    pub closed spec fn visible_view(&self) -> bool {
        self.visible
    }

    pub closed spec fn kind_view(&self) -> MenuKind {
        self.kind
    }

    pub closed spec fn items_view(&self) -> Seq<Seq<char>> {
        self.items@.map_values(|s: String| s@)
    }

    pub closed spec fn selected_view(&self) -> Option<usize> {
        self.selected_idx
    }

    pub closed spec fn hover_view(&self) -> Option<usize> {
        self.hover_idx
    }

    pub closed spec fn scroll_view(&self) -> nat {
        self.scroll_offset as nat
    }

    pub closed spec fn rows_view(&self) -> nat {
        self.visible_rows as nat
    }

    pub closed spec fn width_view(&self) -> nat {
        self.width as nat
    }

    pub closed spec fn height_view(&self) -> nat {
        self.height as nat
    }

    /// The menu's invariant: it shows at most ten rows, no more than it
    /// has items, and its scroll position stays addressable.
    pub open spec fn wf(&self) -> bool {
        &&& self.rows_view() == min_nat(self.items_view().len(), MAX_VISIBLE_ROWS as nat)
        &&& self.scroll_view() + MAX_VISIBLE_ROWS <= isize::MAX
        &&& self.items_view().len() + MAX_VISIBLE_ROWS <= isize::MAX
        &&& PAD_Y * 2 + ROW_H <= self.height_view() <= PAD_Y * 2 + ROW_H * 10
        &&& MIN_WIDTH <= self.width_view() <= i32::MAX
    }

    /// A hidden, empty quality menu of the minimum size.
    pub fn new() -> (r: Self)
        ensures
            r.wf(),
            !r.visible_view(),
            r.kind_view() == MenuKind::Quality,
            r.items_view().len() == 0,
            r.selected_view() is None,
            r.hover_view() is None,
            r.scroll_view() == 0,
            r.width_view() == MIN_WIDTH,
            r.height_view() == 200,
    {
        let r = PopupMenu {
            visible: false,
            kind: MenuKind::Quality,
            items: Vec::new(),
            selected_idx: None,
            hover_idx: None,
            scroll_offset: 0,
            visible_rows: 0,
            width: 200,
            height: 200,
        };
        assert(r.items_view() =~= Seq::<Seq<char>>::empty());
        r
    }

    /// Open the menu with `items` (whose text widths in pixels are
    /// `item_widths`) so that its right edge sits at `anchor_right_x` and
    /// its bottom edge 4 px above `anchor_top_y`, scrolled so that the
    /// selected item is visible. Returns the window geometry.
    pub fn open(
        &mut self,
        kind: MenuKind,
        items: Vec<String>,
        selected_idx: Option<usize>,
        item_widths: &Vec<i32>,
        anchor_right_x: i32,
        anchor_top_y: i32,
    ) -> (p: MenuPlacement)
        requires
            item_widths@.len() == items@.len(),
            items@.len() + MAX_VISIBLE_ROWS <= isize::MAX,
            forall|i: int| 0 <= i < item_widths@.len() ==> #[trigger] item_widths@[i] <= i32::MAX - 56,
            selected_idx matches Some(i) ==> i + MAX_VISIBLE_ROWS < isize::MAX,
            anchor_right_x - (if max_width(item_widths@) + 56 > MIN_WIDTH {
                max_width(item_widths@) + 56
            } else {
                MIN_WIDTH as int
            }) >= i32::MIN,
            anchor_top_y - 4 - 6 * 2 - 32 * 10 >= i32::MIN,
        ensures
            final(self).wf(),
            final(self).visible_view(),
            final(self).kind_view() == kind,
            final(self).items_view() == items@.map_values(|s: String| s@),
            final(self).selected_view() == selected_idx,
            final(self).hover_view() is None,
            final(self).rows_view() == min_nat(items@.len(), MAX_VISIBLE_ROWS as nat),
            final(self).scroll_view() == initial_scroll(selected_idx, final(self).rows_view()),
            final(self).height_view() == PAD_Y * 2 + ROW_H * (if final(self).rows_view() > 0 {
                final(self).rows_view()
            } else {
                1
            }),
            final(self).width_view() == (if max_width(item_widths@) + 56 > MIN_WIDTH {
                max_width(item_widths@) + 56
            } else {
                MIN_WIDTH as int
            }),
            p.width == final(self).width_view(),
            p.height == final(self).height_view(),
            p.x == (if anchor_right_x - p.width > 4 {
                anchor_right_x - p.width
            } else {
                4
            }),
            p.y == (if anchor_top_y - 4 - p.height > 4 {
                anchor_top_y - 4 - p.height
            } else {
                4
            }),
            p.map == !old(self).visible_view(),
    {
        self.kind = kind;
        self.items = items;
        self.selected_idx = selected_idx;
        self.hover_idx = None;
        let total = self.items.len();
        self.visible_rows = if total < MAX_VISIBLE_ROWS {
            total
        } else {
            MAX_VISIBLE_ROWS
        };
        self.scroll_offset = match selected_idx {
            Some(i) => if i >= self.visible_rows {
                i + 1 - self.visible_rows
            } else {
                0
            },
            None => 0,
        };
        self.recompute_size(item_widths);
        assert(self.items_view().len() == self.items@.len());
        let w = self.width as i32;
        let x = if anchor_right_x - w > 4 {
            anchor_right_x - w
        } else {
            4
        };
        let h = self.height as i32;
        let y = if anchor_top_y - 4 - h > 4 {
            anchor_top_y - 4 - h
        } else {
            4
        };
        let map = !self.visible;
        self.visible = true;
        MenuPlacement { x, y, width: self.width, height: self.height, map }
    }

    fn recompute_size(&mut self, item_widths: &Vec<i32>)
        requires
            old(self).visible_rows <= MAX_VISIBLE_ROWS,
            forall|i: int| 0 <= i < item_widths@.len() ==> #[trigger] item_widths@[i] <= i32::MAX - 56,
        ensures
            final(self).visible == old(self).visible,
            final(self).kind == old(self).kind,
            final(self).items == old(self).items,
            final(self).selected_idx == old(self).selected_idx,
            final(self).hover_idx == old(self).hover_idx,
            final(self).scroll_offset == old(self).scroll_offset,
            final(self).visible_rows == old(self).visible_rows,
            final(self).height == PAD_Y * 2 + ROW_H * (if old(self).visible_rows > 0 {
                old(self).visible_rows as int
            } else {
                1
            }),
            MIN_WIDTH <= final(self).width <= i32::MAX,
            PAD_Y * 2 + ROW_H <= final(self).height <= PAD_Y * 2 + ROW_H * 10,
            final(self).width == (if max_width(item_widths@) + 56 > MIN_WIDTH {
                max_width(item_widths@) + 56
            } else {
                MIN_WIDTH as int
            }),
    {
        let visible: usize = if self.visible_rows > 1 {
            self.visible_rows
        } else {
            1
        };
        self.height = (PAD_Y * 2 + ROW_H * visible as i32) as u32;
        let mut max_text: i32 = 0;
        let mut i: usize = 0;
        while i < item_widths.len()
            invariant
                i <= item_widths@.len(),
                max_text == max_width(item_widths@.subrange(0, i as int)),
                0 <= max_text <= i32::MAX - 56,
                forall|k: int| 0 <= k < item_widths@.len() ==> #[trigger] item_widths@[k] <= i32::MAX - 56,
            decreases item_widths@.len() - i,
        {
            let w = item_widths[i];
            assert(item_widths@.subrange(0, i + 1).drop_last() =~= item_widths@.subrange(0, i as int));
            if w > max_text {
                max_text = w;
            }
            i = i + 1;
        }
        assert(item_widths@.subrange(0, i as int) =~= item_widths@);
        let full = max_text + PAD_X * 2 + 32;
        self.width = (if full > MIN_WIDTH {
            full
        } else {
            MIN_WIDTH
        }) as u32;
    }

    /// Hide the menu. Returns true if the window has to be unmapped.
    pub fn close(&mut self) -> (unmap: bool)
        requires
            old(self).wf(),
        ensures
            final(self).wf(),
            unmap == old(self).visible_view(),
            !final(self).visible_view(),
            final(self).kind_view() == old(self).kind_view(),
            final(self).items_view() == old(self).items_view(),
            final(self).selected_view() == old(self).selected_view(),
            final(self).hover_view() == old(self).hover_view(),
            final(self).scroll_view() == old(self).scroll_view(),
    {
        let was = self.visible;
        self.visible = false;
        was
    }

    pub fn is_visible(&self) -> (r: bool)
        ensures
            r == self.visible_view(),
    {
        self.visible
    }

    pub fn current_kind(&self) -> (r: MenuKind)
        ensures
            r == self.kind_view(),
    {
        self.kind
    }

    /// Current window width and height.
    pub fn size(&self) -> (r: (u32, u32))
        ensures
            r.0 == self.width_view(),
            r.1 == self.height_view(),
    {
        (self.width, self.height)
    }

    /// The text of item `i`.
    pub fn item(&self, i: usize) -> (r: &str)
        requires
            i < self.items_view().len(),
        ensures
            r@ == self.items_view()[i as int],
    {
        self.items[i].as_str()
    }

    /// The number of items.
    pub fn item_count(&self) -> (r: usize)
        ensures
            r == self.items_view().len(),
    {
        self.items.len()
    }

    /// The last scroll position: every item but the last page.
    pub fn max_scroll(&self) -> (r: usize)
        ensures
            r == (if self.items_view().len() > self.rows_view() {
                self.items_view().len() - self.rows_view()
            } else {
                0
            }),
    {
        if self.items.len() > self.visible_rows {
            self.items.len() - self.visible_rows
        } else {
            0
        }
    }

    /// Scroll by `delta` rows, clamped to `0..=max_scroll`. Returns true
    /// if the position changed (the menu must be redrawn).
    pub fn scroll_by(&mut self, delta: isize) -> (changed: bool)
        requires
            old(self).wf(),
            old(self).scroll_view() + delta <= isize::MAX,
        ensures
            final(self).wf(),
            ({
                let wanted = if old(self).scroll_view() + delta > 0 {
                    old(self).scroll_view() + delta
                } else {
                    0
                };
                let maxs = if old(self).items_view().len() > old(self).rows_view() {
                    old(self).items_view().len() - old(self).rows_view()
                } else {
                    0
                };
                final(self).scroll_view() == (if wanted < maxs {
                    wanted
                } else {
                    maxs
                })
            }),
            changed == (final(self).scroll_view() != old(self).scroll_view()),
            final(self).visible_view() == old(self).visible_view(),
            final(self).kind_view() == old(self).kind_view(),
            final(self).items_view() == old(self).items_view(),
            final(self).selected_view() == old(self).selected_view(),
            final(self).hover_view() == old(self).hover_view(),
            final(self).rows_view() == old(self).rows_view(),
    {
        let sum = self.scroll_offset as isize + delta;
        let new: usize = if sum > 0 {
            sum as usize
        } else {
            0
        };
        let maxs = self.max_scroll();
        let clamped = if new < maxs {
            new
        } else {
            maxs
        };
        proof {
            assert(self.items_view().len() == self.items@.len());
        }
        if clamped != self.scroll_offset {
            self.scroll_offset = clamped;
            true
        } else {
            false
        }
    }

    /// The item under window y-coordinate `y`, if any.
    pub fn row_at(&self, y: i32) -> (r: Option<usize>)
        requires
            self.wf(),
        ensures
            r matches Some(i) ==> row_at_spec(y as int, self.scroll_view(), self.rows_view(), self.items_view().len()) == Some(i as nat),
            r is None ==> row_at_spec(y as int, self.scroll_view(), self.rows_view(), self.items_view().len()) is None,
    {
        if y < PAD_Y {
            return None;
        }
        let yy = y - PAD_Y;
        let visible_idx = (yy / ROW_H) as usize;
        if visible_idx >= self.visible_rows {
            return None;
        }
        proof {
            assert(self.items_view().len() == self.items@.len());
        }
        let idx = self.scroll_offset + visible_idx;
        if idx < self.items.len() {
            Some(idx)
        } else {
            None
        }
    }

    /// Pointer moved to `y`: returns true if the hovered row changed.
    pub fn handle_motion(&mut self, y: i32) -> (redraw: bool)
        requires
            old(self).wf(),
        ensures
            final(self).wf(),
            ({
                let r = row_at_spec(y as int, old(self).scroll_view(), old(self).rows_view(), old(self).items_view().len());
                let h = match r {
                    Some(i) => Some(i as usize),
                    None => None,
                };
                &&& final(self).hover_view() == h
                &&& redraw == (h != old(self).hover_view())
            }),
            final(self).visible_view() == old(self).visible_view(),
            final(self).kind_view() == old(self).kind_view(),
            final(self).items_view() == old(self).items_view(),
            final(self).selected_view() == old(self).selected_view(),
            final(self).scroll_view() == old(self).scroll_view(),
    {
        let new = self.row_at(y);
        if new != self.hover_idx {
            self.hover_idx = new;
            true
        } else {
            false
        }
    }

    /// Click at `y`: the selection it makes, if it hits an item.
    pub fn handle_click(&self, y: i32) -> (r: Option<MenuEvent>)
        requires
            self.wf(),
        ensures
            r == (match row_at_spec(y as int, self.scroll_view(), self.rows_view(), self.items_view().len()) {
                Some(i) => Some(MenuEvent::Selected { kind: self.kind_view(), index: i as usize }),
                None => None,
            }),
    {
        match self.row_at(y) {
            Some(idx) => Some(MenuEvent::Selected { kind: self.kind, index: idx }),
            None => None,
        }
    }

    /// React to one X event on the menu window: expose redraws, left
    /// click selects, wheel buttons 4 / 5 scroll by three rows, motion
    /// tracks the hovered row, leaving clears it.
    pub fn handle_input(&mut self, input: MenuInput) -> (r: MenuReaction)
        requires
            old(self).wf(),
        ensures
            final(self).wf(),
            final(self).visible_view() == old(self).visible_view(),
            final(self).kind_view() == old(self).kind_view(),
            final(self).items_view() == old(self).items_view(),
            final(self).selected_view() == old(self).selected_view(),
            match input {
                MenuInput::Expose => r.redraw && r.event is None && *final(self) == *old(self),
                MenuInput::ButtonPress { button, y } => if button == 1 {
                    &&& !r.redraw
                    &&& r.event == (match row_at_spec(y as int, old(self).scroll_view(), old(self).rows_view(), old(self).items_view().len()) {
                        Some(i) => Some(MenuEvent::Selected { kind: old(self).kind_view(), index: i as usize }),
                        None => None,
                    })
                    &&& *final(self) == *old(self)
                } else if button == 4 || button == 5 {
                    &&& r.event is None
                    &&& r.redraw == (final(self).scroll_view() != old(self).scroll_view())
                    &&& final(self).hover_view() == old(self).hover_view()
                    &&& ({
                        let delta: int = if button == 4 { -3 } else { 3 };
                        let wanted = if old(self).scroll_view() + delta > 0 {
                            old(self).scroll_view() + delta
                        } else {
                            0
                        };
                        let maxs = if old(self).items_view().len() > old(self).rows_view() {
                            old(self).items_view().len() - old(self).rows_view()
                        } else {
                            0
                        };
                        final(self).scroll_view() == (if wanted < maxs {
                            wanted
                        } else {
                            maxs
                        })
                    })
                } else {
                    !r.redraw && r.event is None && *final(self) == *old(self)
                },
                MenuInput::Motion { y } => {
                    let h = match row_at_spec(y as int, old(self).scroll_view(), old(self).rows_view(), old(self).items_view().len()) {
                        Some(i) => Some(i as usize),
                        None => None,
                    };
                    &&& final(self).hover_view() == h
                    &&& r.redraw == (h != old(self).hover_view())
                    &&& r.event is None
                    &&& final(self).scroll_view() == old(self).scroll_view()
                },
                MenuInput::Leave => {
                    &&& final(self).hover_view() is None
                    &&& r.redraw == old(self).hover_view() is Some
                    &&& r.event is None
                    &&& final(self).scroll_view() == old(self).scroll_view()
                },
            },
    {
        match input {
            MenuInput::Expose => MenuReaction { redraw: true, event: None },
            MenuInput::ButtonPress { button, y } => {
                if button == 1 {
                    MenuReaction { redraw: false, event: self.handle_click(y) }
                } else if button == 4 {
                    let changed = self.scroll_by(-3);
                    MenuReaction { redraw: changed, event: None }
                } else if button == 5 {
                    let changed = self.scroll_by(3);
                    MenuReaction { redraw: changed, event: None }
                } else {
                    MenuReaction { redraw: false, event: None }
                }
            },
            MenuInput::Motion { y } => {
                let redraw = self.handle_motion(y);
                MenuReaction { redraw, event: None }
            },
            MenuInput::Leave => {
                if self.hover_idx.is_some() {
                    self.hover_idx = None;
                    MenuReaction { redraw: true, event: None }
                } else {
                    MenuReaction { redraw: false, event: None }
                }
            },
        }
    }

    /// The rows to draw, top to bottom: the visible window of items.
    pub fn visible_items(&self) -> (rows: Vec<MenuRow>)
        requires
            self.wf(),
        ensures
            ({
                let end: int = if self.scroll_view() + self.rows_view() < self.items_view().len() {
                    (self.scroll_view() + self.rows_view()) as int
                } else {
                    self.items_view().len() as int
                };
                &&& rows@.len() == (if end > self.scroll_view() {
                    end - self.scroll_view()
                } else {
                    0
                })
                &&& forall|k: int|
                    #![trigger rows@[k]]
                    0 <= k < rows@.len() ==> {
                        let idx = self.scroll_view() + k;
                        &&& rows@[k].visible_idx == k
                        &&& rows@[k].index == idx
                        &&& rows@[k].hover == (self.hover_view() == Some(idx as usize))
                        &&& rows@[k].selected == (self.selected_view() == Some(idx as usize))
                    }
            }),
    {
        proof {
            assert(self.items_view().len() == self.items@.len());
        }
        let len = self.items.len();
        let end = if self.scroll_offset + self.visible_rows < len {
            self.scroll_offset + self.visible_rows
        } else {
            len
        };
        let mut rows: Vec<MenuRow> = Vec::new();
        let start = self.scroll_offset;
        let stop = if end > start {
            end
        } else {
            start
        };
        let mut idx = start;
        while idx < stop
            invariant
                start == self.scroll_offset,
                start <= idx <= stop,
                rows@.len() == idx - self.scroll_offset,
                forall|k: int|
                    #![trigger rows@[k]]
                    0 <= k < rows@.len() ==> {
                        let i = self.scroll_offset + k;
                        &&& rows@[k].visible_idx == k
                        &&& rows@[k].index == i
                        &&& rows@[k].hover == (self.hover_idx == Some(i as usize))
                        &&& rows@[k].selected == (self.selected_idx == Some(i as usize))
                    },
            decreases stop - idx,
        {
            let hover = match self.hover_idx {
                Some(h) => h == idx,
                None => false,
            };
            let selected = match self.selected_idx {
                Some(s) => s == idx,
                None => false,
            };
            rows.push(MenuRow { visible_idx: idx - self.scroll_offset, index: idx, hover, selected });
            idx = idx + 1;
        }
        assert(rows@.len() == (if end > self.scroll_offset {
            end - self.scroll_offset
        } else {
            0
        }));
        rows
    }

    /// The scrollbar to draw when the list has more items than rows.
    pub fn scrollbar(&self) -> (r: Option<Scrollbar>)
        requires
            self.wf(),
            self.items_view().len() <= i32::MAX,
            self.scroll_view() * 320 <= i32::MAX,
        ensures
            self.items_view().len() > self.rows_view() <==> r is Some,
            r matches Some(sb) ==> {
                let total = self.items_view().len() as int;
                let rows = self.rows_view() as int;
                let track_h = self.height_view() - PAD_Y * 2;
                let thumb_h = if (track_h * rows) / total > 20 {
                    (track_h * rows) / total
                } else {
                    20
                };
                let max_off = if total - rows > 1 {
                    total - rows
                } else {
                    1
                };
                &&& sb.track_x == self.width_view() - 4
                &&& sb.track_top == PAD_Y
                &&& sb.track_h == track_h
                &&& sb.thumb_h == thumb_h
                &&& sb.thumb_y == PAD_Y + ((track_h - thumb_h) * self.scroll_view()) / max_off
            },
    {
        proof {
            assert(self.items_view().len() == self.items@.len());
        }
        if self.items.len() <= self.visible_rows {
            return None;
        }
        let track_x = self.width as i32 - 4;
        let track_top = PAD_Y;
        let track_h = self.height as i32 - PAD_Y * 2;
        let total = self.items.len() as i32;
        let rows = self.visible_rows as i32;
        assert(rows == 10);
        assert(0 <= track_h * rows <= 3200) by (nonlinear_arith)
            requires
                32 <= track_h <= 320,
                rows == 10,
        ;
        let th = (track_h * rows) / total;
        assert(th < track_h) by (nonlinear_arith)
            requires
                th == (track_h * rows) as int / total as int,
                rows < total,
                track_h > 0,
                rows > 0,
        ;
        let thumb_h = if th > 20 {
            th
        } else {
            20
        };
        let max_off = if total - rows > 1 {
            total - rows
        } else {
            1
        };
        let free = track_h - thumb_h;
        let scroll = self.scroll_offset as i32;
        assert(0 <= free * scroll <= i32::MAX) by (nonlinear_arith)
            requires
                0 <= free <= 300,
                0 <= scroll,
                scroll * 320 <= i32::MAX,
        ;
        assert(free * scroll <= i32::MAX - 20) by (nonlinear_arith)
            requires
                0 <= free <= 300,
                0 <= scroll,
                scroll * 320 <= i32::MAX,
        ;
        assert((free * scroll) as int / max_off as int <= free * scroll) by (nonlinear_arith)
            requires
                0 <= free * scroll,
                max_off >= 1,
        ;
        let thumb_y = track_top + (free * scroll) / max_off;
        Some(Scrollbar { track_x, track_top, track_h, thumb_y, thumb_h })
    }
}

/// Opening a menu on a selected item shows it: the item lies within the
/// visible page, the page lies within the list, and a click on the row
/// where the item is drawn selects that item.
pub proof fn law_open_shows_selected(i: usize, len: nat)
    requires
        i < len,
    ensures
        ({
            let rows = min_nat(len, MAX_VISIBLE_ROWS as nat);
            let scroll = initial_scroll(Some(i), rows);
            &&& scroll <= i < scroll + rows
            &&& scroll + rows <= len
            &&& row_at_spec(PAD_Y + (i - scroll) * ROW_H, scroll, rows, len) == Some(i as nat)
        }),
{
    let rows = min_nat(len, MAX_VISIBLE_ROWS as nat);
    let scroll = initial_scroll(Some(i), rows);
    let v: int = i - scroll;
    assert(0 <= v < rows);
    assert((v * 32) / 32 == v) by (nonlinear_arith)
        requires
            v >= 0,
    ;
}

} // verus!
