//! The chat's input line: a text with a cursor, edited by keys that move
//! and delete by visual segment (an emoji sequence is one segment), by
//! the platform's text input (positions in UTF-16 code units), and
//! submitted with Enter. The text is held as characters and the cursor
//! as a character index; the caller hands in the visual segments.

use vstd::prelude::*;
use crate::text::{chars_of, string_from_chars};
use crate::chat::{trim, text_to_send};

verus! {

/// UTF-16 code units of `c`.
pub open spec fn utf16_units(c: char) -> nat {
    if c as u32 >= 0x10000 {
        2
    } else {
        1
    }
}

/// UTF-16 length of `s`.
pub open spec fn utf16_len_of(s: Seq<char>) -> nat
    decreases s.len(),
{
    if s.len() == 0 {
        0
    } else {
        utf16_len_of(s.drop_last()) + utf16_units(s.last())
    }
}

/// The first character index at which the UTF-16 length of the text
/// before it reaches `off`, scanning from `i` (the text's length if none).
pub open spec fn index_at_utf16(s: Seq<char>, off: nat, i: int) -> int
    decreases s.len() - i,
{
    if i < 0 || i >= s.len() {
        s.len() as int
    } else if utf16_len_of(s.take(i)) >= off {
        i
    } else {
        index_at_utf16(s, off, i + 1)
    }
}

/// Visual segments `[start, end)` (character indices), in text order.
pub open spec fn segments_ok(bounds: Seq<(usize, usize)>, len: nat) -> bool {
    forall|i: int| #![trigger bounds[i]] 0 <= i < bounds.len() ==> bounds[i].0 <= bounds[i].1 && bounds[i].1 <= len
}

/// The segment the cursor steps back over: scanning from the last, the
/// first that ends at or before the cursor or starts before it.
pub open spec fn back_segment(bounds: Seq<(usize, usize)>, cursor: nat) -> Option<int>
    decreases bounds.len(),
{
    if bounds.len() == 0 {
        None
    } else if bounds.last().1 <= cursor || bounds.last().0 < cursor {
        Some(bounds.len() - 1)
    } else {
        back_segment(bounds.drop_last(), cursor)
    }
}

/// The first segment that ends after the cursor.
pub open spec fn forward_end(bounds: Seq<(usize, usize)>, cursor: nat, i: int) -> Option<int>
    decreases bounds.len() - i,
{
    if i < 0 || i >= bounds.len() {
        None
    } else if bounds[i].1 > cursor {
        Some(i)
    } else {
        forward_end(bounds, cursor, i + 1)
    }
}

/// The first segment that starts at or after the cursor.
pub open spec fn forward_start(bounds: Seq<(usize, usize)>, cursor: nat, i: int) -> Option<int>
    decreases bounds.len() - i,
{
    if i < 0 || i >= bounds.len() {
        None
    } else if bounds[i].0 >= cursor {
        Some(i)
    } else {
        forward_start(bounds, cursor, i + 1)
    }
}

/// `s` without `[start, end)`.
pub open spec fn remove_range(s: Seq<char>, start: int, end: int) -> Seq<char> {
    s.subrange(0, start) + s.subrange(end, s.len() as int)
}

/// A piece of the text as the emoji table splits it: plain text (each
/// character a segment of its own) or one emoji sequence (one segment).
pub enum TextSegment {
    Text(String),
    Emoji(String),
}

/// Characters of a piece.
pub open spec fn piece_len(s: TextSegment) -> nat {
    match s {
        TextSegment::Text(t) => t@.len(),
        TextSegment::Emoji(u) => u@.len(),
    }
}

/// Characters of all the pieces.
pub open spec fn pieces_len(segs: Seq<TextSegment>) -> nat
    decreases segs.len(),
{
    if segs.len() == 0 {
        0
    } else {
        pieces_len(segs.drop_last()) + piece_len(segs.last())
    }
}

/// The segments of one piece starting at character `off`.
pub open spec fn piece_bounds(s: TextSegment, off: nat) -> Seq<(usize, usize)> {
    match s {
        TextSegment::Text(t) => Seq::new(t@.len(), |i: int| ((off + i) as usize, (off + i + 1) as usize)),
        TextSegment::Emoji(u) => seq![(off as usize, (off + u@.len()) as usize)],
    }
}

/// The visual segments of the whole text, in order.
pub open spec fn visual_bounds(segs: Seq<TextSegment>) -> Seq<(usize, usize)>
    decreases segs.len(),
{
    if segs.len() == 0 {
        Seq::empty()
    } else {
        visual_bounds(segs.drop_last()) + piece_bounds(segs.last(), pieces_len(segs.drop_last()))
    }
}

/// The visual segments `[start, end)` (character indices) of a text
/// split into `segs`: one per character of plain text, one per emoji.
pub fn visual_boundaries(segs: &Vec<TextSegment>) -> (bounds: Vec<(usize, usize)>)
    requires
        pieces_len(segs@) <= usize::MAX,
    ensures
        bounds@ == visual_bounds(segs@),
        segments_ok(bounds@, pieces_len(segs@)),
{
    proof {
        lemma_visual_bounds_ok(segs@);
    }
    let mut bounds: Vec<(usize, usize)> = Vec::new();
    let mut off: usize = 0;
    let mut k: usize = 0;
    proof {
        assert(segs@.take(0) =~= Seq::<TextSegment>::empty());
    }
    while k < segs.len()
        invariant
            k <= segs@.len(),
            pieces_len(segs@) <= usize::MAX,
            off == pieces_len(segs@.take(k as int)),
            bounds@ == visual_bounds(segs@.take(k as int)),
        decreases segs@.len() - k,
    {
        proof {
            assert(segs@.take(k + 1).drop_last() =~= segs@.take(k as int));
            lemma_pieces_len_prefix(segs@, k as int + 1);
        }
        match &segs[k] {
            TextSegment::Text(t) => {
                let n = t.as_str().unicode_len();
                let ghost start = bounds@;
                let mut i: usize = 0;
                while i < n
                    invariant
                        i <= n,
                        n == t@.len(),
                        off + n <= usize::MAX,
                        bounds@ == start + Seq::new(i as nat, |j: int| ((off + j) as usize, (off + j + 1) as usize)),
                    decreases n - i,
                {
                    bounds.push((off + i, off + i + 1));
                    i = i + 1;
                    proof {
                        assert(bounds@ =~= start + Seq::new(i as nat, |j: int| ((off + j) as usize, (off + j + 1) as usize)));
                    }
                }
                proof {
                    assert(bounds@ =~= visual_bounds(segs@.take(k + 1)));
                }
                off = off + n;
            },
            TextSegment::Emoji(u) => {
                let n = u.as_str().unicode_len();
                bounds.push((off, off + n));
                proof {
                    assert(bounds@ =~= visual_bounds(segs@.take(k + 1)));
                }
                off = off + n;
            },
        }
        k = k + 1;
    }
    proof {
        assert(segs@.take(segs@.len() as int) =~= segs@);
    }
    bounds
}

/// The segments of a split text lie within the text.
proof fn lemma_visual_bounds_ok(segs: Seq<TextSegment>)
    requires
        pieces_len(segs) <= usize::MAX,
    ensures
        segments_ok(visual_bounds(segs), pieces_len(segs)),
    decreases segs.len(),
{
    if segs.len() > 0 {
        lemma_visual_bounds_ok(segs.drop_last());
        let b = visual_bounds(segs);
        let pre = visual_bounds(segs.drop_last());
        let off = pieces_len(segs.drop_last());
        let pb = piece_bounds(segs.last(), off);
        assert forall|i: int| #![trigger b[i]] 0 <= i < b.len() implies b[i].0 <= b[i].1 && b[i].1 <= pieces_len(segs) by {
            if i < pre.len() {
                assert(b[i] == pre[i]);
            } else {
                assert(b[i] == pb[i - pre.len()]);
            }
        }
    }
}

/// A prefix has no more characters than the whole.
proof fn lemma_pieces_len_prefix(segs: Seq<TextSegment>, k: int)
    requires
        0 <= k <= segs.len(),
    ensures
        pieces_len(segs.take(k)) <= pieces_len(segs),
    decreases segs.len() - k,
{
    if k < segs.len() {
        lemma_pieces_len_prefix(segs, k + 1);
        assert(segs.take(k + 1).drop_last() =~= segs.take(k));
    } else {
        assert(segs.take(k) =~= segs);
    }
}

/// The input line.
pub struct EmojiInput {
    text: Vec<char>,
    cursor: usize,
    /// The blinking cursor is in its visible phase.
    blink_visible: bool,
}

/// Enter was pressed on a non-blank line: the text to send.
pub struct EmojiInputSubmit(pub String);

impl EmojiInput {
    /// The characters of the line.
    pub closed spec fn text_view(&self) -> Seq<char> {
        self.text@
    }

    /// The cursor, as a character index.
    pub closed spec fn cursor_view(&self) -> nat {
        self.cursor as nat
    }

    /// The blinking cursor is in its visible phase.
    pub closed spec fn blink_view(&self) -> bool {
        self.blink_visible
    }

    pub fn is_blink_visible(&self) -> (r: bool)
        ensures
            r == self.blink_view(),
    {
        self.blink_visible
    }

    pub open spec fn wf(&self) -> bool {
        self.cursor_view() <= self.text_view().len()
    }

    /// An empty line, cursor visible.
    pub fn new() -> (r: Self)
        ensures
            r.wf(),
            r.text_view().len() == 0,
            r.cursor_view() == 0,
            r.blink_view(),
    {
        EmojiInput { text: Vec::new(), cursor: 0, blink_visible: true }
    }

    /// The text of the line.
    pub fn text(&self) -> (r: String)
        ensures
            r@ == self.text_view(),
    {
        string_from_chars(&self.text, 0, self.text.len())
    }

    /// The number of characters.
    pub fn char_count(&self) -> (r: usize)
        ensures
            r == self.text_view().len(),
    {
        self.text.len()
    }

    /// The cursor's character index.
    pub fn cursor_char_offset(&self) -> (r: usize)
        ensures
            r == self.cursor_view(),
    {
        self.cursor
    }

    /// Replace the text; the cursor goes to its end.
    pub fn set_text(&mut self, text: &str)
        ensures
            final(self).wf(),
            final(self).text_view() == text@,
            final(self).cursor_view() == text@.len(),
            final(self).blink_view() == old(self).blink_view(),
    {
        self.text = chars_of(text);
        self.cursor = self.text.len();
    }

    /// Empty the line.
    pub fn clear(&mut self)
        ensures
            final(self).wf(),
            final(self).text_view().len() == 0,
            final(self).cursor_view() == 0,
            final(self).blink_view() == old(self).blink_view(),
    {
        self.text = Vec::new();
        self.cursor = 0;
    }

    /// Insert `s` at the cursor, which moves past it.
    pub fn append(&mut self, s: &str)
        requires
            old(self).wf(),
            old(self).text_view().len() + s@.len() <= usize::MAX,
        ensures
            final(self).wf(),
            final(self).text_view() == old(self).text_view().subrange(0, old(self).cursor_view() as int) + s@
                + old(self).text_view().subrange(old(self).cursor_view() as int, old(self).text_view().len() as int),
            final(self).cursor_view() == old(self).cursor_view() + s@.len(),
            final(self).blink_view() == old(self).blink_view(),
    {
        let ins = chars_of(s);
        let ghost t0 = self.text@;
        let c0 = self.cursor;
        let mut out: Vec<char> = Vec::new();
        let mut i: usize = 0;
        while i < c0
            invariant
                t0 == self.text@,
                c0 <= self.text@.len(),
                i <= c0,
                out@ == t0.subrange(0, i as int),
            decreases c0 - i,
        {
            out.push(self.text[i]);
            assert(out@ =~= t0.subrange(0, i + 1));
            i = i + 1;
        }
        let mut j: usize = 0;
        while j < ins.len()
            invariant
                t0 == self.text@,
                c0 <= self.text@.len(),
                ins@ == s@,
                j <= ins@.len(),
                out@ == t0.subrange(0, c0 as int) + ins@.subrange(0, j as int),
            decreases ins@.len() - j,
        {
            out.push(ins[j]);
            assert(out@ =~= t0.subrange(0, c0 as int) + ins@.subrange(0, j + 1));
            j = j + 1;
        }
        let n = self.text.len();
        let mut k: usize = c0;
        while k < n
            invariant
                t0 == self.text@,
                n == t0.len(),
                c0 <= k <= n,
                ins@ == s@,
                out@ == t0.subrange(0, c0 as int) + ins@ + t0.subrange(c0 as int, k as int),
            decreases n - k,
        {
            out.push(self.text[k]);
            assert(out@ =~= t0.subrange(0, c0 as int) + ins@ + t0.subrange(c0 as int, k + 1));
            k = k + 1;
        }
        self.text = out;
        self.cursor = c0 + ins.len();
    }

    fn remove(&mut self, start: usize, end: usize)
        requires
            old(self).wf(),
            start <= end <= old(self).text_view().len(),
        ensures
            final(self).text_view() == remove_range(old(self).text_view(), start as int, end as int),
            final(self).cursor == old(self).cursor,
            final(self).blink_view() == old(self).blink_view(),
    {
        let ghost t0 = self.text@;
        let n = self.text.len();
        let mut out: Vec<char> = Vec::new();
        let mut i: usize = 0;
        while i < n
            invariant
                t0 == self.text@,
                n == t0.len(),
                start <= end <= n,
                i <= n,
                out@ == remove_range(t0.subrange(0, i as int), if start < i { start as int } else { i as int }, if end < i { end as int } else { i as int }),
            decreases n - i,
        {
            if i < start || i >= end {
                out.push(self.text[i]);
            }
            proof {
                let a = if start < i { start as int } else { i as int };
                let b = if end < i { end as int } else { i as int };
                let a2 = if start < i + 1 { start as int } else { i + 1 };
                let b2 = if end < i + 1 { end as int } else { i + 1 };
                assert(remove_range(t0.subrange(0, i + 1), a2, b2) =~= if i < start || i >= end {
                    remove_range(t0.subrange(0, i as int), a, b).push(t0[i as int])
                } else {
                    remove_range(t0.subrange(0, i as int), a, b)
                });
            }
            i = i + 1;
        }
        assert(t0.subrange(0, n as int) =~= t0);
        self.text = out;
    }

    fn back_segment_exec(bounds: &Vec<(usize, usize)>, cursor: usize) -> (r: Option<usize>)
        ensures
            r matches Some(i) ==> back_segment(bounds@, cursor as nat) == Some(i as int) && i < bounds@.len(),
            r is None ==> back_segment(bounds@, cursor as nat) is None,
    {
        let mut k: usize = bounds.len();
        assert(bounds@.take(k as int) =~= bounds@);
        while k > 0
            invariant
                k <= bounds@.len(),
                back_segment(bounds@, cursor as nat) == back_segment(bounds@.take(k as int), cursor as nat),
            decreases k,
        {
            let (s, e) = bounds[k - 1];
            assert(bounds@.take(k as int).last() == bounds@[k - 1]);
            if e <= cursor || s < cursor {
                return Some(k - 1);
            }
            assert(bounds@.take(k as int).drop_last() =~= bounds@.take(k - 1));
            k = k - 1;
        }
        None
    }

    fn forward_end_exec(bounds: &Vec<(usize, usize)>, cursor: usize) -> (r: Option<usize>)
        ensures
            r matches Some(i) ==> forward_end(bounds@, cursor as nat, 0) == Some(i as int) && i < bounds@.len(),
            r is None ==> forward_end(bounds@, cursor as nat, 0) is None,
    {
        let n = bounds.len();
        let mut i: usize = 0;
        while i < n
            invariant
                n == bounds@.len(),
                i <= n,
                forward_end(bounds@, cursor as nat, 0) == forward_end(bounds@, cursor as nat, i as int),
            decreases n - i,
        {
            if bounds[i].1 > cursor {
                return Some(i);
            }
            i = i + 1;
        }
        None
    }

    fn forward_start_exec(bounds: &Vec<(usize, usize)>, cursor: usize) -> (r: Option<usize>)
        ensures
            r matches Some(i) ==> forward_start(bounds@, cursor as nat, 0) == Some(i as int) && i < bounds@.len(),
            r is None ==> forward_start(bounds@, cursor as nat, 0) is None,
    {
        let n = bounds.len();
        let mut i: usize = 0;
        while i < n
            invariant
                n == bounds@.len(),
                i <= n,
                forward_start(bounds@, cursor as nat, 0) == forward_start(bounds@, cursor as nat, i as int),
            decreases n - i,
        {
            if bounds[i].0 >= cursor {
                return Some(i);
            }
            i = i + 1;
        }
        None
    }

    /// Left arrow: the cursor steps back over one segment.
    pub fn move_cursor_left(&mut self, bounds: &Vec<(usize, usize)>)
        requires
            old(self).wf(),
            segments_ok(bounds@, old(self).text_view().len()),
        ensures
            final(self).wf(),
            final(self).text_view() == old(self).text_view(),
            final(self).cursor_view() == (if old(self).cursor_view() == 0 {
                0
            } else {
                match back_segment(bounds@, old(self).cursor_view()) {
                    Some(i) => bounds@[i].0 as nat,
                    None => old(self).cursor_view(),
                }
            }),
            old(self).cursor_view() != 0 ==> final(self).blink_view(),
            old(self).cursor_view() == 0 ==> final(self).blink_view() == old(self).blink_view(),
    {
        if self.cursor == 0 {
            return;
        }
        if let Some(i) = Self::back_segment_exec(bounds, self.cursor) {
            self.cursor = bounds[i].0;
        }
        self.blink_visible = true;
    }

    /// Right arrow: the cursor moves to the end of the segment after it.
    pub fn move_cursor_right(&mut self, bounds: &Vec<(usize, usize)>)
        requires
            old(self).wf(),
            segments_ok(bounds@, old(self).text_view().len()),
        ensures
            final(self).wf(),
            final(self).text_view() == old(self).text_view(),
            final(self).cursor_view() == (if old(self).cursor_view() >= old(self).text_view().len() {
                old(self).cursor_view()
            } else {
                match forward_end(bounds@, old(self).cursor_view(), 0) {
                    Some(i) => bounds@[i].1 as nat,
                    None => old(self).cursor_view(),
                }
            }),
            old(self).cursor_view() < old(self).text_view().len() ==> final(self).blink_view(),
            old(self).cursor_view() >= old(self).text_view().len() ==> final(self).blink_view() == old(self).blink_view(),
    {
        if self.cursor >= self.text.len() {
            return;
        }
        if let Some(i) = Self::forward_end_exec(bounds, self.cursor) {
            assert(bounds@[i as int].0 <= bounds@[i as int].1 && bounds@[i as int].1 <= self.text@.len());
            self.cursor = bounds[i].1;
        }
        self.blink_visible = true;
    }

    /// Backspace: delete the segment the cursor steps back over.
    pub fn delete_backward(&mut self, bounds: &Vec<(usize, usize)>)
        requires
            old(self).wf(),
            segments_ok(bounds@, old(self).text_view().len()),
            forall|i: int| 0 <= i < bounds@.len() ==> #[trigger] bounds@[i].0 < old(self).cursor_view()
                ==> bounds@[i].1 <= old(self).cursor_view(),
        ensures
            final(self).wf(),
            old(self).cursor_view() == 0 ==> final(self).text_view() == old(self).text_view()
                && final(self).cursor_view() == 0 && final(self).blink_view() == old(self).blink_view(),
            old(self).cursor_view() != 0 ==> final(self).blink_view() && match back_segment(bounds@, old(self).cursor_view()) {
                Some(i) => final(self).text_view() == remove_range(old(self).text_view(), bounds@[i].0 as int, bounds@[i].1 as int)
                    && final(self).cursor_view() == bounds@[i].0,
                None => final(self).text_view() == old(self).text_view() && final(self).cursor_view() == old(self).cursor_view(),
            },
    {
        if self.cursor == 0 {
            return;
        }
        if let Some(i) = Self::back_segment_exec(bounds, self.cursor) {
            let (s, e) = bounds[i];
            self.remove(s, e);
            self.cursor = s;
        }
        self.blink_visible = true;
    }

    /// Delete: delete the first segment starting at or after the cursor.
    pub fn delete_forward(&mut self, bounds: &Vec<(usize, usize)>)
        requires
            old(self).wf(),
            segments_ok(bounds@, old(self).text_view().len()),
        ensures
            final(self).wf(),
            final(self).cursor_view() == old(self).cursor_view(),
            old(self).cursor_view() >= old(self).text_view().len() ==> final(self).text_view() == old(self).text_view()
                && final(self).blink_view() == old(self).blink_view(),
            old(self).cursor_view() < old(self).text_view().len() ==> final(self).blink_view() && match forward_start(bounds@, old(self).cursor_view(), 0) {
                Some(i) => final(self).text_view() == remove_range(old(self).text_view(), bounds@[i].0 as int, bounds@[i].1 as int),
                None => final(self).text_view() == old(self).text_view(),
            },
    {
        if self.cursor >= self.text.len() {
            return;
        }
        if let Some(i) = Self::forward_start_exec(bounds, self.cursor) {
            let (s, e) = bounds[i];
            assert(bounds@[i as int].0 <= bounds@[i as int].1);
            proof {
                lemma_forward_start_found(bounds@, self.cursor as nat, 0);
            }
            self.remove(s, e);
        }
        self.blink_visible = true;
    }

    /// Home / End / a click in the line.
    pub fn move_cursor_home(&mut self)
        ensures
            final(self).wf(),
            final(self).text_view() == old(self).text_view(),
            final(self).cursor_view() == 0,
            final(self).blink_view(),
    {
        self.cursor = 0;
        self.blink_visible = true;
    }

    pub fn move_cursor_end(&mut self)
        ensures
            final(self).wf(),
            final(self).text_view() == old(self).text_view(),
            final(self).cursor_view() == old(self).text_view().len(),
            final(self).blink_view(),
    {
        self.cursor = self.text.len();
        self.blink_visible = true;
    }

    /// The blink timer fired.
    pub fn toggle_blink(&mut self)
        ensures
            final(self).blink_view() == !old(self).blink_view(),
            final(self).text_view() == old(self).text_view(),
            final(self).cursor_view() == old(self).cursor_view(),
    {
        self.blink_visible = !self.blink_visible;
    }

    /// Enter: the line without surrounding white space is sent if not
    /// empty, and the line is cleared; otherwise nothing happens.
    pub fn submit(&mut self) -> (r: Option<EmojiInputSubmit>)
        requires
            old(self).wf(),
        ensures
            final(self).wf(),
            trim(old(self).text_view()).len() == 0 ==> r is None && final(self).text_view() == old(self).text_view()
                && final(self).cursor_view() == old(self).cursor_view(),
            trim(old(self).text_view()).len() > 0 ==> (r matches Some(t) && t.0@ == trim(old(self).text_view()))
                && final(self).text_view().len() == 0 && final(self).cursor_view() == 0,
            final(self).blink_view() == old(self).blink_view(),
    {
        let t = self.text();
        match text_to_send(t.as_str()) {
            Some(sent) => {
                self.clear();
                Some(EmojiInputSubmit(sent))
            },
            None => None,
        }
    }

    /// A key press: backspace, delete, left, right, home and end edit
    /// or move (see the functions of the same purpose); enter submits
    /// (see `submit`); other keys do nothing. Returns the text to send.
    pub fn handle_key(&mut self, key: &str, bounds: &Vec<(usize, usize)>) -> (r: Option<EmojiInputSubmit>)
        requires
            old(self).wf(),
            segments_ok(bounds@, old(self).text_view().len()),
            forall|i: int| 0 <= i < bounds@.len() ==> #[trigger] bounds@[i].0 < old(self).cursor_view()
                ==> bounds@[i].1 <= old(self).cursor_view(),
        ensures
            final(self).wf(),
            key@ != "enter"@ ==> r is None,
            key@ == "enter"@ ==> (trim(old(self).text_view()).len() > 0 <==> r is Some),
            key@ == "enter"@ ==> {
                &&& trim(old(self).text_view()).len() == 0 ==> final(self).text_view() == old(self).text_view()
                    && final(self).cursor_view() == old(self).cursor_view()
                &&& trim(old(self).text_view()).len() > 0 ==> (r matches Some(t) && t.0@ == trim(old(self).text_view()))
                    && final(self).text_view().len() == 0 && final(self).cursor_view() == 0
                &&& final(self).blink_view() == old(self).blink_view()
            },
            key@ == "backspace"@ ==> {
                &&& old(self).cursor_view() == 0 ==> final(self).text_view() == old(self).text_view()
                    && final(self).cursor_view() == 0 && final(self).blink_view() == old(self).blink_view()
                &&& old(self).cursor_view() != 0 ==> final(self).blink_view() && match back_segment(bounds@, old(self).cursor_view()) {
                    Some(i) => final(self).text_view() == remove_range(old(self).text_view(), bounds@[i].0 as int, bounds@[i].1 as int)
                        && final(self).cursor_view() == bounds@[i].0,
                    None => final(self).text_view() == old(self).text_view() && final(self).cursor_view() == old(self).cursor_view(),
                }
            },
            key@ == "delete"@ ==> {
                &&& final(self).cursor_view() == old(self).cursor_view()
                &&& old(self).cursor_view() >= old(self).text_view().len() ==> final(self).text_view() == old(self).text_view()
                    && final(self).blink_view() == old(self).blink_view()
                &&& old(self).cursor_view() < old(self).text_view().len() ==> final(self).blink_view() && match forward_start(bounds@, old(self).cursor_view(), 0) {
                    Some(i) => final(self).text_view() == remove_range(old(self).text_view(), bounds@[i].0 as int, bounds@[i].1 as int),
                    None => final(self).text_view() == old(self).text_view(),
                }
            },
            key@ == "left"@ ==> {
                &&& final(self).text_view() == old(self).text_view()
                &&& final(self).cursor_view() == (if old(self).cursor_view() == 0 {
                    0
                } else {
                    match back_segment(bounds@, old(self).cursor_view()) {
                        Some(i) => bounds@[i].0 as nat,
                        None => old(self).cursor_view(),
                    }
                })
                &&& old(self).cursor_view() != 0 ==> final(self).blink_view()
                &&& old(self).cursor_view() == 0 ==> final(self).blink_view() == old(self).blink_view()
            },
            key@ == "right"@ ==> {
                &&& final(self).text_view() == old(self).text_view()
                &&& final(self).cursor_view() == (if old(self).cursor_view() >= old(self).text_view().len() {
                    old(self).cursor_view()
                } else {
                    match forward_end(bounds@, old(self).cursor_view(), 0) {
                        Some(i) => bounds@[i].1 as nat,
                        None => old(self).cursor_view(),
                    }
                })
                &&& old(self).cursor_view() < old(self).text_view().len() ==> final(self).blink_view()
                &&& old(self).cursor_view() >= old(self).text_view().len() ==> final(self).blink_view() == old(self).blink_view()
            },
            key@ == "home"@ ==> final(self).cursor_view() == 0 && final(self).text_view() == old(self).text_view()
                && final(self).blink_view(),
            key@ == "end"@ ==> final(self).cursor_view() == old(self).text_view().len() && final(self).text_view()
                == old(self).text_view() && final(self).blink_view(),
            !(key@ == "enter"@ || key@ == "home"@ || key@ == "end"@ || key@ == "backspace"@ || key@ == "delete"@
                || key@ == "left"@ || key@ == "right"@) ==> final(self).text_view() == old(self).text_view()
                && final(self).cursor_view() == old(self).cursor_view() && final(self).blink_view()
                == old(self).blink_view(),
    {
        proof {
            reveal_strlit("backspace");
            reveal_strlit("delete");
            reveal_strlit("left");
            reveal_strlit("right");
            reveal_strlit("home");
            reveal_strlit("end");
            reveal_strlit("enter");
            assert("backspace"@.len() == 9 && "delete"@.len() == 6 && "left"@.len() == 4 && "right"@.len() == 5);
            assert("home"@.len() == 4 && "end"@.len() == 3 && "enter"@.len() == 5);
            assert("home"@[0] != "left"@[0] && "enter"@[0] != "right"@[0]);
        }
        if crate::text::str_eq(key, "backspace") {
            self.delete_backward(bounds);
            None
        } else if crate::text::str_eq(key, "delete") {
            self.delete_forward(bounds);
            None
        } else if crate::text::str_eq(key, "left") {
            self.move_cursor_left(bounds);
            None
        } else if crate::text::str_eq(key, "right") {
            self.move_cursor_right(bounds);
            None
        } else if crate::text::str_eq(key, "home") {
            self.move_cursor_home();
            None
        } else if crate::text::str_eq(key, "end") {
            self.move_cursor_end();
            None
        } else if crate::text::str_eq(key, "enter") {
            self.submit()
        } else {
            None
        }
    }

    /// UTF-16 length of the text.
    pub fn utf16_len(&self) -> (r: usize)
        requires
            self.text_view().len() * 2 <= usize::MAX,
        ensures
            r == utf16_len_of(self.text_view()),
    {
        assert(self.text@.take(self.text@.len() as int) =~= self.text@);
        self.utf16_upto(self.text.len())
    }

    /// UTF-16 length of the first `k` characters.
    pub fn utf16_upto(&self, k: usize) -> (r: usize)
        requires
            k <= self.text_view().len(),
            self.text_view().len() * 2 <= usize::MAX,
        ensures
            r == utf16_len_of(self.text_view().take(k as int)),
    {
        let mut n: usize = 0;
        let mut i: usize = 0;
        while i < k
            invariant
                k <= self.text@.len(),
                self.text@.len() * 2 <= usize::MAX,
                i <= k,
                n == utf16_len_of(self.text@.take(i as int)),
                n <= 2 * i,
            decreases k - i,
        {
            assert(self.text@.take(i + 1).drop_last() =~= self.text@.take(i as int));
            let c = self.text[i];
            if c as u32 >= 0x10000 {
                n = n + 2;
            } else {
                n = n + 1;
            }
            i = i + 1;
        }
        n
    }

    /// The character index of UTF-16 offset `off`: the first character
    /// before which the text is `off` code units long or more.
    pub fn utf16_to_char(&self, off: usize) -> (r: usize)
        requires
            self.text_view().len() * 2 <= usize::MAX,
        ensures
            r == index_at_utf16(self.text_view(), off as nat, 0),
            r <= self.text_view().len(),
    {
        let n = self.text.len();
        let mut units: usize = 0;
        let mut i: usize = 0;
        while i < n
            invariant
                n == self.text@.len(),
                n * 2 <= usize::MAX,
                i <= n,
                units == utf16_len_of(self.text@.take(i as int)),
                units <= 2 * i,
                index_at_utf16(self.text@, off as nat, 0) == index_at_utf16(self.text@, off as nat, i as int),
            decreases n - i,
        {
            if units >= off {
                return i;
            }
            assert(self.text@.take(i + 1).drop_last() =~= self.text@.take(i as int));
            if self.text[i] as u32 >= 0x10000 {
                units = units + 2;
            } else {
                units = units + 1;
            }
            i = i + 1;
        }
        n
    }

    /// The cursor as a UTF-16 offset (the empty selection reported to
    /// the platform).
    pub fn selected_utf16(&self) -> (r: usize)
        requires
            self.wf(),
            self.text_view().len() * 2 <= usize::MAX,
        ensures
            r == utf16_len_of(self.text_view().take(self.cursor_view() as int)),
    {
        self.utf16_upto(self.cursor)
    }

    /// The text of UTF-16 range `[start, end)` and the range actually
    /// covered (both ends moved to character boundaries).
    pub fn text_for_range(&self, start_utf16: usize, end_utf16: usize) -> (r: (String, (usize, usize)))
        requires
            self.text_view().len() * 2 <= usize::MAX,
            start_utf16 <= end_utf16,
        ensures
            ({
                let s = index_at_utf16(self.text_view(), start_utf16 as nat, 0);
                let e = index_at_utf16(self.text_view(), end_utf16 as nat, 0);
                &&& r.0@ == self.text_view().subrange(s, e)
                &&& r.1 == (utf16_len_of(self.text_view().take(s)) as usize, utf16_len_of(self.text_view().take(e)) as usize)
            }),
    {
        let s = self.utf16_to_char(start_utf16);
        let e = self.utf16_to_char(end_utf16);
        proof {
            lemma_index_at_monotone(self.text@, start_utf16 as nat, end_utf16 as nat, 0);
        }
        (string_from_chars(&self.text, s, e), (self.utf16_upto(s), self.utf16_upto(e)))
    }

    /// The platform replaces UTF-16 range `range` (the cursor when
    /// `None`) by `new_text`; the cursor goes after it.
    pub fn replace_text_in_range(&mut self, range: Option<(usize, usize)>, new_text: &str)
        requires
            old(self).wf(),
            old(self).text_view().len() * 2 <= usize::MAX,
            old(self).text_view().len() + new_text@.len() <= usize::MAX,
            range matches Some((a, b)) ==> a <= b,
        ensures
            final(self).wf(),
            ({
                let (s, e) = match range {
                    Some((a, b)) => (index_at_utf16(old(self).text_view(), a as nat, 0), index_at_utf16(old(self).text_view(), b as nat, 0)),
                    None => (old(self).cursor_view() as int, old(self).cursor_view() as int),
                };
                &&& final(self).text_view() == old(self).text_view().subrange(0, s) + new_text@ + old(self).text_view().subrange(e, old(self).text_view().len() as int)
                &&& final(self).cursor_view() == s + new_text@.len()
            }),
            final(self).blink_view(),
    {
        let (s, e) = match range {
            Some((a, b)) => {
                let s = self.utf16_to_char(a);
                let e = self.utf16_to_char(b);
                proof {
                    lemma_index_at_monotone(self.text@, a as nat, b as nat, 0);
                }
                (s, e)
            },
            None => (self.cursor, self.cursor),
        };
        let ghost t0 = self.text@;
        self.remove(s, e);
        self.cursor = s;
        assert(self.text@ == remove_range(t0, s as int, e as int));
        self.append(new_text);
        assert(self.text@ =~= t0.subrange(0, s as int) + new_text@ + t0.subrange(e as int, t0.len() as int));
        self.blink_visible = true;
    }
}

/// The segment `forward_start` finds starts at or after the cursor.
proof fn lemma_forward_start_found(bounds: Seq<(usize, usize)>, cursor: nat, i: int)
    ensures
        forward_start(bounds, cursor, i) matches Some(k) ==> 0 <= k < bounds.len() && bounds[k].0 >= cursor,
    decreases bounds.len() - i,
{
    if 0 <= i < bounds.len() && !(bounds[i].0 >= cursor) {
        lemma_forward_start_found(bounds, cursor, i + 1);
    }
}

/// A larger UTF-16 offset never maps to an earlier character.
proof fn lemma_index_at_monotone(s: Seq<char>, a: nat, b: nat, i: int)
    requires
        a <= b,
        0 <= i,
    ensures
        index_at_utf16(s, a, i) <= index_at_utf16(s, b, i),
        index_at_utf16(s, b, i) <= s.len(),
        i <= s.len() ==> i <= index_at_utf16(s, a, i),
    decreases s.len() - i,
{
    if i < s.len() {
        lemma_index_at_monotone(s, a, b, i + 1);
    }
}

/// Each character adds at least one UTF-16 unit.
proof fn lemma_utf16_strict(s: Seq<char>, j: int, k: int)
    requires
        0 <= j < k <= s.len(),
    ensures
        utf16_len_of(s.take(j)) < utf16_len_of(s.take(k)),
    decreases k - j,
{
    assert(s.take(k).drop_last() =~= s.take(k - 1));
    if j < k - 1 {
        lemma_utf16_strict(s, j, k - 1);
    }
}

proof fn lemma_scan_finds(s: Seq<char>, k: int, i: int)
    requires
        0 <= i <= k <= s.len(),
    ensures
        index_at_utf16(s, utf16_len_of(s.take(k)), i) == k,
    decreases k - i,
{
    if i < k {
        lemma_utf16_strict(s, i, k);
        lemma_scan_finds(s, k, i + 1);
    }
}

/// The platform's UTF-16 offsets and the line's character indices
/// agree: the UTF-16 offset reported for a character index (as
/// `selected_utf16` and `text_for_range` report them) leads back to the
/// same character index when the platform hands it in again.
pub proof fn law_utf16_round_trip(s: Seq<char>, k: int)
    requires
        0 <= k <= s.len(),
    ensures
        index_at_utf16(s, utf16_len_of(s.take(k)), 0) == k,
{
    lemma_scan_finds(s, k, 0);
}

} // verus!
