//! The chat panel: the message buffer (the last 500 messages, of which
//! the last 60 are drawn), how a message body is shown (sticker, GIF or
//! text), the user-name colours, what the send button sends, and the
//! state of the emoji / GIF / sticker picker.

use vstd::prelude::*;
use std::collections::VecDeque;
use crate::text::{chars_of, concat_str};
use crate::player_tracks::{lex_lt, str_lt};
use crate::emoji_input::EmojiInputSubmit;
use crate::gif_picker::{listed, no_repeats, position_of, remove_listed, GifSelected};

verus! {

broadcast use vstd::utf8::group_utf8_lib;

/// Messages kept in the buffer.
pub const MAX_MESSAGES: usize = 500;
/// Messages drawn (the newest ones).
pub const RENDER_WINDOW: usize = 60;
/// Colour of a user name whose colour does not parse.
pub const DEFAULT_NAME_COLOR: u32 = 0xaaaaaa;

/// One chat message.
pub struct ChatMessage {
    pub id: String,
    pub username: String,
    pub text: String,
    pub color: String,
    pub registered: bool,
    pub time: String,
}

/// Tab of the picker.
#[derive(Copy, Clone, PartialEq, Eq, Debug, Structural)]
pub enum PickerTab {
    Emoji,
    Gif,
    Stickers,
}

/// The last `n` elements of `s` (all of them if there are fewer).
pub open spec fn keep_last<T>(s: Seq<T>, n: nat) -> Seq<T> {
    if s.len() > n {
        s.subrange(s.len() - n, s.len() as int)
    } else {
        s
    }
}

/// Message `m` carries history entry `h` = (user name, text, colour, time).
pub open spec fn from_entry(m: ChatMessage, h: (String, String, String, String)) -> bool {
    &&& m.id@.len() == 0
    &&& m.username == h.0
    &&& m.text == h.1
    &&& m.color == h.2
    &&& !m.registered
    &&& m.time == h.3
}

/// The messages `ms` carry the history entries `hs`, in order.
pub open spec fn from_entries(ms: Seq<ChatMessage>, hs: Seq<(String, String, String, String)>) -> bool {
    &&& ms.len() == hs.len()
    &&& forall|i: int| 0 <= i < ms.len() ==> from_entry(#[trigger] ms[i], hs[i])
}

/// A message to send to the chat.
pub struct ChatSend {
    pub text: String,
}

/// The chat panel's state.
pub struct ChatView {
    /// The buffer, oldest first.
    pub messages: VecDeque<ChatMessage>,
    pub viewer_count: usize,
    /// The picker is open.
    pub picker_open: bool,
    pub picker_tab: PickerTab,
    /// Emoji category shown in the picker.
    pub emoji_category: usize,
    /// New messages scroll the list to the bottom.
    pub auto_scroll: bool,
    /// URLs of the GIF messages being downloaded.
    pub gif_pending: Vec<String>,
}

impl ChatView {
    /// An empty chat, picker closed on the emoji tab, auto-scrolling.
    pub fn new() -> (r: Self)
        ensures
            r.messages@.len() == 0,
            r.viewer_count == 0,
            !r.picker_open,
            r.picker_tab == PickerTab::Emoji,
            r.emoji_category == 0,
            r.auto_scroll,
            r.gif_pending@.len() == 0,
            no_repeats(r.gif_pending@),
    {
        ChatView {
            messages: VecDeque::new(),
            viewer_count: 0,
            picker_open: false,
            picker_tab: PickerTab::Emoji,
            emoji_category: 0,
            auto_scroll: true,
            gif_pending: Vec::new(),
        }
    }

    /// Replace the whole history with `history` (user name, text, colour,
    /// time), keeping its last 500 entries. An empty history does not wipe
    /// a non-empty buffer (returns false: nothing changed); otherwise the
    /// list scrolls to the bottom (returns true).
    pub fn replace_messages(&mut self, history: Vec<(String, String, String, String)>) -> (changed: bool)
        ensures
            changed == !(history@.len() == 0 && old(self).messages@.len() > 0),
            !changed ==> final(self).messages@ == old(self).messages@,
            changed ==> from_entries(final(self).messages@, keep_last(history@, MAX_MESSAGES as nat)),
            final(self).viewer_count == old(self).viewer_count,
            final(self).auto_scroll == old(self).auto_scroll,
            final(self).picker_open == old(self).picker_open,
    {
        if history.len() == 0 && self.messages.len() > 0 {
            return false;
        }
        let mut msgs: VecDeque<ChatMessage> = VecDeque::new();
        let ghost h0 = history@;
        let mut history = history;
        let start: usize = if history.len() > MAX_MESSAGES {
            history.len() - MAX_MESSAGES
        } else {
            0
        };
        let mut tail = history.split_off(start);
        let ghost kept = tail@;
        assert(kept =~= keep_last(h0, MAX_MESSAGES as nat));
        while tail.len() > 0
            invariant
                kept == keep_last(h0, MAX_MESSAGES as nat),
                tail@.len() <= kept.len(),
                tail@ == kept.subrange(0, tail@.len() as int),
                from_entries(msgs@, kept.subrange(tail@.len() as int, kept.len() as int)),
            decreases tail@.len(),
        {
            let ghost before = msgs@;
            let (username, text, color, time) = tail.pop().unwrap();
            msgs.push_front(ChatMessage { id: String::new(), username, text, color, registered: false, time });
            proof {
                assert(tail@ =~= kept.subrange(0, tail@.len() as int));
                assert forall|i: int| 0 <= i < msgs@.len() implies from_entry(
                    #[trigger] msgs@[i],
                    kept.subrange(tail@.len() as int, kept.len() as int)[i],
                ) by {
                    if i > 0 {
                        assert(msgs@[i] == before[i - 1]);
                        assert(kept.subrange(tail@.len() as int, kept.len() as int)[i]
                            == kept.subrange(tail@.len() as int + 1, kept.len() as int)[i - 1]);
                    }
                }
            }
        }
        assert(kept.subrange(0, kept.len() as int) =~= kept);
        self.messages = msgs;
        true
    }

    /// Append a message; the oldest ones beyond 500 are dropped.
    pub fn push_message(&mut self, username: String, text: String, color: String, time: String)
        ensures
            ({
                let all = old(self).messages@.push(
                    ChatMessage { id: final(self).messages@.last().id, username, text, color, registered: false, time },
                );
                &&& final(self).messages@.last().id@.len() == 0
                &&& final(self).messages@ == keep_last(all, MAX_MESSAGES as nat)
            }),
            final(self).viewer_count == old(self).viewer_count,
            final(self).auto_scroll == old(self).auto_scroll,
    {
        let m = ChatMessage { id: String::new(), username, text, color, registered: false, time };
        let mut q: VecDeque<ChatMessage> = VecDeque::new();
        std::mem::swap(&mut q, &mut self.messages);
        let ghost all = q@.push(m);
        q.push_back(m);
        assert(q@ == all);
        while q.len() > MAX_MESSAGES
            invariant
                all.len() >= q@.len(),
                q@ == all.subrange(all.len() - q@.len(), all.len() as int),
                q@.len() >= MAX_MESSAGES || q@ == all,
                q@.len() >= 1,
                q@.last() == m,
            decreases q@.len(),
        {
            let ghost before = q@;
            let _ = q.pop_front();
            assert(q@ =~= all.subrange(all.len() - q@.len(), all.len() as int));
            assert(q@.last() == before.last());
        }
        assert(all.subrange(0, all.len() as int) =~= all);
        self.messages = q;
    }

    /// Empty the buffer.
    pub fn clear_messages(&mut self)
        ensures
            final(self).messages@.len() == 0,
            final(self).viewer_count == old(self).viewer_count,
            final(self).auto_scroll == old(self).auto_scroll,
    {
        self.messages.clear();
    }

    pub fn set_viewer_count(&mut self, count: usize)
        ensures
            final(self).viewer_count == count,
            final(self).messages == old(self).messages,
    {
        self.viewer_count = count;
    }

    /// Index of the first message drawn: only the last 60 are.
    pub fn render_start(&self) -> (r: usize)
        ensures
            r == (if self.messages@.len() > RENDER_WINDOW { self.messages@.len() - RENDER_WINDOW } else { 0 }),
    {
        self.messages.len().saturating_sub(RENDER_WINDOW)
    }

    /// The picker button: open or close the picker. Returns false when it
    /// closed (the GIF picker is then dropped).
    pub fn toggle_picker(&mut self) -> (open: bool)
        ensures
            open == !old(self).picker_open,
            final(self).picker_open == open,
            final(self).picker_tab == old(self).picker_tab,
            final(self).messages == old(self).messages,
    {
        self.picker_open = !self.picker_open;
        self.picker_open
    }

    pub fn select_tab(&mut self, tab: PickerTab)
        ensures
            final(self).picker_tab == tab,
            final(self).picker_open == old(self).picker_open,
            final(self).messages == old(self).messages,
    {
        self.picker_tab = tab;
    }

    pub fn select_emoji_category(&mut self, i: usize)
        ensures
            final(self).emoji_category == i,
            final(self).picker_open == old(self).picker_open,
            final(self).messages == old(self).messages,
    {
        self.emoji_category = i;
    }

    /// The category shown among `count` categories: the selected one,
    /// or the last one when the selection is beyond.
    pub fn active_category(&self, count: usize) -> (r: usize)
        ensures
            r == (if self.emoji_category < (if count > 0 { count - 1 } else { 0 }) {
                self.emoji_category as int
            } else {
                if count > 0 { count - 1 } else { 0 }
            }),
    {
        let last = count.saturating_sub(1);
        if self.emoji_category < last {
            self.emoji_category
        } else {
            last
        }
    }

    /// The wheel turned upwards over the messages (`scrolls_up`): stop
    /// following new messages.
    pub fn on_scroll_wheel(&mut self, scrolls_up: bool)
        ensures
            final(self).auto_scroll == (old(self).auto_scroll && !scrolls_up),
            final(self).messages == old(self).messages,
            final(self).picker_open == old(self).picker_open,
    {
        if scrolls_up {
            self.auto_scroll = false;
        }
    }

    /// The "new messages" button: follow new messages again.
    pub fn resume_auto_scroll(&mut self)
        ensures
            final(self).auto_scroll,
            final(self).messages == old(self).messages,
            final(self).picker_open == old(self).picker_open,
    {
        self.auto_scroll = true;
    }

    /// The input line submitted `ev`: send its text.
    pub fn input_submitted(&self, ev: EmojiInputSubmit) -> (r: ChatSend)
        ensures
            r.text@ == ev.0@,
    {
        ChatSend { text: ev.0 }
    }

    /// The send button was pressed with `input` in the line: its text
    /// without surrounding white space is sent, unless blank.
    pub fn send_clicked(&self, input: &str) -> (r: Option<ChatSend>)
        ensures
            trim(input@).len() == 0 ==> r is None,
            trim(input@).len() > 0 ==> (r matches Some(m) && m.text@ == trim(input@)),
    {
        match text_to_send(input) {
            Some(text) => Some(ChatSend { text }),
            None => None,
        }
    }

    /// A `[gif:<url>]` message is drawn: the GIF is shown when `cached`;
    /// otherwise a placeholder, and its download starts (the URL becomes
    /// pending) unless one is already pending, so each URL is fetched
    /// once at a time.
    pub fn gif_body(&mut self, url: &str, cached: bool) -> (r: GifBodyStep)
        requires
            no_repeats(old(self).gif_pending@),
        ensures
            r == (if cached {
                GifBodyStep::Show
            } else if listed(old(self).gif_pending@, url@) {
                GifBodyStep::Placeholder
            } else {
                GifBodyStep::Fetch
            }),
            r == GifBodyStep::Fetch ==> final(self).gif_pending@.len() == old(self).gif_pending@.len() + 1
                && final(self).gif_pending@.drop_last() == old(self).gif_pending@
                && final(self).gif_pending@.last()@ == url@,
            r != GifBodyStep::Fetch ==> final(self).gif_pending == old(self).gif_pending,
            no_repeats(final(self).gif_pending@),
            listed(final(self).gif_pending@, url@) || cached,
            final(self).messages == old(self).messages,
            final(self).picker_open == old(self).picker_open,
    {
        let pending = position_of(&self.gif_pending, url).is_some();
        let step = gif_body_step(cached, pending);
        match step {
            GifBodyStep::Fetch => {
                let ghost before = self.gif_pending@;
                self.gif_pending.push(crate::text::string_of(url));
                proof {
                    let v = self.gif_pending@;
                    assert(v.drop_last() =~= before);
                    assert(v[v.len() - 1]@ == url@);
                    assert forall|a: int, b: int| 0 <= a < b < v.len() implies #[trigger] v[a]@ != #[trigger] v[b]@ by {
                        if b == v.len() - 1 {
                            assert(v[a] == before[a]);
                        } else {
                            assert(v[a] == before[a] && v[b] == before[b]);
                        }
                    }
                }
            },
            _ => {},
        }
        step
    }

    /// The download of GIF `url` ended (decoded, or timed out): it is no
    /// longer pending, and a later draw may fetch it again.
    pub fn gif_done(&mut self, url: &str)
        requires
            no_repeats(old(self).gif_pending@),
        ensures
            no_repeats(final(self).gif_pending@),
            forall|u: Seq<char>| listed(final(self).gif_pending@, u) <==> (listed(old(self).gif_pending@, u) && u != url@),
            final(self).messages == old(self).messages,
            final(self).picker_open == old(self).picker_open,
    {
        remove_listed(&mut self.gif_pending, url);
    }

    /// A GIF was picked: `[gif:<url>]` is sent and the picker closes.
    pub fn gif_selected(&mut self, ev: GifSelected) -> (r: ChatSend)
        ensures
            r.text@ == gif_message_spec(ev.0@),
            !final(self).picker_open,
            final(self).picker_tab == old(self).picker_tab,
            final(self).messages == old(self).messages,
    {
        self.picker_open = false;
        ChatSend { text: gif_message(ev.0.as_str()) }
    }

    /// A sticker was clicked: `[sticker:<name>]` is sent and the picker
    /// closes.
    pub fn sticker_clicked(&mut self, name: &str) -> (r: ChatSend)
        ensures
            r.text@ == sticker_message_spec(name@),
            !final(self).picker_open,
            final(self).picker_tab == old(self).picker_tab,
            final(self).messages == old(self).messages,
    {
        self.picker_open = false;
        ChatSend { text: sticker_message(name) }
    }

    /// An emoji, a GIF or a sticker was picked: the picker closes.
    pub fn close_picker(&mut self)
        ensures
            !final(self).picker_open,
            final(self).picker_tab == old(self).picker_tab,
            final(self).messages == old(self).messages,
    {
        self.picker_open = false;
    }
}

// ---------------------------------------------------------------------
// Messages of the picker
// ---------------------------------------------------------------------

/// The message sent for a picked GIF: `[gif:<url>]`.
pub open spec fn gif_message_spec(url: Seq<char>) -> Seq<char> {
    "[gif:"@ + url + "]"@
}

/// The message sent for a picked sticker: `[sticker:<file name>]`.
pub open spec fn sticker_message_spec(name: Seq<char>) -> Seq<char> {
    "[sticker:"@ + name + "]"@
}

pub fn gif_message(url: &str) -> (r: String)
    ensures
        r@ == gif_message_spec(url@),
{
    let mut s = concat_str("[gif:", url);
    s.append("]");
    s
}

pub fn sticker_message(name: &str) -> (r: String)
    ensures
        r@ == sticker_message_spec(name@),
{
    let mut s = concat_str("[sticker:", name);
    s.append("]");
    s
}

// ---------------------------------------------------------------------
// Message bodies
// ---------------------------------------------------------------------

/// How a message body is shown.
pub enum MessageBody {
    /// `[sticker:<file>]`: the sticker file.
    Sticker(String),
    /// `[gif:<url>]`: the GIF at the URL.
    Gif(String),
    /// Anything else: text with inline emoji.
    Text,
}

/// `s` starts with `p`.
pub open spec fn starts_with(s: Seq<char>, p: Seq<char>) -> bool {
    p.len() <= s.len() && s.subrange(0, p.len() as int) == p
}

/// `s` ends with `p`.
pub open spec fn ends_with(s: Seq<char>, p: Seq<char>) -> bool {
    p.len() <= s.len() && s.subrange(s.len() - p.len(), s.len() as int) == p
}

/// What lies between prefix `p` and a closing `]`, if `text` is framed so.
pub open spec fn framed(text: Seq<char>, p: Seq<char>) -> Option<Seq<char>> {
    if starts_with(text, p) && text.len() > p.len() && text.last() == ']' {
        Some(text.subrange(p.len() as int, text.len() - 1))
    } else {
        None
    }
}

fn starts_with_exec(s: &Vec<char>, p: &str) -> (r: bool)
    ensures
        r == starts_with(s@, p@),
{
    let pc = chars_of(p);
    if pc.len() > s.len() {
        return false;
    }
    let mut i: usize = 0;
    while i < pc.len()
        invariant
            pc@ == p@,
            pc@.len() <= s@.len(),
            i <= pc@.len(),
            forall|k: int| 0 <= k < i ==> s@[k] == pc@[k],
        decreases pc@.len() - i,
    {
        if s[i] != pc[i] {
            assert(s@.subrange(0, pc@.len() as int)[i as int] != p@[i as int]);
            return false;
        }
        i = i + 1;
    }
    assert(s@.subrange(0, pc@.len() as int) =~= p@);
    true
}

pub(crate) fn ends_with_exec(s: &Vec<char>, p: &str) -> (r: bool)
    ensures
        r == ends_with(s@, p@),
{
    let pc = chars_of(p);
    if pc.len() > s.len() {
        return false;
    }
    let n = s.len();
    let off = n - pc.len();
    let mut i: usize = 0;
    while i < pc.len()
        invariant
            n == s@.len(),
            pc@ == p@,
            pc@.len() <= s@.len(),
            off == s@.len() - pc@.len(),
            i <= pc@.len(),
            forall|k: int| 0 <= k < i ==> s@[off + k] == pc@[k],
        decreases pc@.len() - i,
    {
        if s[off + i] != pc[i] {
            assert(s@.subrange(off as int, s@.len() as int)[i as int] != p@[i as int]);
            return false;
        }
        i = i + 1;
    }
    assert(s@.subrange(off as int, s@.len() as int) =~= p@);
    true
}

/// How `text` is shown: `[sticker:…]` first, then `[gif:…]`, else text.
pub open spec fn body_of(text: Seq<char>) -> (bool, bool, Seq<char>) {
    match framed(text, "[sticker:"@) {
        Some(name) => (true, false, name),
        None => match framed(text, "[gif:"@) {
            Some(url) => (false, true, url),
            None => (false, false, Seq::empty()),
        },
    }
}

fn framed_exec(text: &str, v: &Vec<char>, p: &str) -> (r: Option<String>)
    requires
        v@ == text@,
    ensures
        opt_view_str(r) == framed(text@, p@),
{
    let n = text.unicode_len();
    let m = p.unicode_len();
    if starts_with_exec(v, p) && n > m && v[n - 1] == ']' {
        let inner = text.substring_char(m, n - 1);
        Some(crate::text::string_of(inner))
    } else {
        None
    }
}

/// The view of an optional string.
pub open spec fn opt_view_str(o: Option<String>) -> Option<Seq<char>> {
    crate::text::opt_view(o)
}

/// Classify a message body (see `body_of`).
pub fn classify_body(text: &str) -> (r: MessageBody)
    ensures
        ({
            let (sticker, gif, inner) = body_of(text@);
            &&& (sticker ==> (r matches MessageBody::Sticker(name) && name@ == inner))
            &&& (gif ==> (r matches MessageBody::Gif(url) && url@ == inner))
            &&& (!sticker && !gif ==> r is Text)
        }),
{
    let v = chars_of(text);
    match framed_exec(text, &v, "[sticker:") {
        Some(name) => MessageBody::Sticker(name),
        None => match framed_exec(text, &v, "[gif:") {
            Some(url) => MessageBody::Gif(url),
            None => MessageBody::Text,
        },
    }
}

/// How a `[gif:…]` message body is shown.
#[derive(Copy, Clone, PartialEq, Eq, Debug, Structural)]
pub enum GifBodyStep {
    /// The decoded GIF is cached: show it.
    Show,
    /// Its download is under way: show the placeholder.
    Placeholder,
    /// Start downloading it (mark it pending) and show the placeholder.
    Fetch,
}

/// The step for a GIF body whose image is `cached` or `pending`.
pub fn gif_body_step(cached: bool, pending: bool) -> (r: GifBodyStep)
    ensures
        r == (if cached {
            GifBodyStep::Show
        } else if pending {
            GifBodyStep::Placeholder
        } else {
            GifBodyStep::Fetch
        }),
{
    if cached {
        GifBodyStep::Show
    } else if pending {
        GifBodyStep::Placeholder
    } else {
        GifBodyStep::Fetch
    }
}

/// A sticker file is shown as a GIF when its name ends with `.gif`
/// (else as a PNG).
pub fn sticker_is_gif(name: &str) -> (r: bool)
    ensures
        r == ends_with(name@, ".gif"@),
{
    ends_with_exec(&chars_of(name), ".gif")
}

/// A fetched GIF is decoded as a GIF when its URL contains `.gif` (else
/// as a JPEG).
pub fn gif_url_is_gif(url: &str) -> (r: bool)
    ensures
        r == crate::text::str_contains_spec(url@, ".gif"@),
{
    crate::text::str_contains(url, ".gif")
}

/// A file of the sticker directory is a sticker: `.png` or `.gif`.
pub open spec fn is_sticker_file(name: Seq<char>) -> bool {
    ends_with(name, ".png"@) || ends_with(name, ".gif"@)
}

// ---------------------------------------------------------------------
// User-name colours
// ---------------------------------------------------------------------

/// Value of a hexadecimal digit, -1 for any other character.
pub open spec fn hex_val(c: char) -> int {
    if '0' <= c && c <= '9' {
        c as int - '0' as int
    } else if 'a' <= c && c <= 'f' {
        c as int - 'a' as int + 10
    } else if 'A' <= c && c <= 'F' {
        c as int - 'A' as int + 10
    } else {
        -1
    }
}

/// Value of a string of hexadecimal digits.
pub open spec fn hex_value(s: Seq<char>) -> nat
    decreases s.len(),
{
    if s.len() == 0 {
        0
    } else {
        hex_value(s.drop_last()) * 16 + (if hex_val(s.last()) >= 0 { hex_val(s.last()) as nat } else { 0 })
    }
}

/// `s` without its leading `#`s.
pub open spec fn strip_hashes(s: Seq<char>) -> Seq<char>
    decreases s.len(),
{
    if s.len() > 0 && s[0] == '#' {
        strip_hashes(s.drop_first())
    } else {
        s
    }
}

/// The digits `u32::from_str_radix(_, 16)` reads: after one optional `+`.
pub open spec fn hex_digits(t: Seq<char>) -> Seq<char> {
    if t.len() > 0 && t[0] == '+' {
        t.drop_first()
    } else {
        t
    }
}

/// A user-name colour: leading `#`s dropped, then a hexadecimal `u32`
/// as `u32::from_str_radix(_, 16)` reads it.
pub open spec fn parse_hex_color_spec(s: Seq<char>) -> Option<u32> {
    let d = hex_digits(strip_hashes(s));
    if d.len() == 0 || exists|i: int| 0 <= i < d.len() && hex_val(#[trigger] d[i]) < 0 {
        None
    } else if hex_value(d) > u32::MAX {
        None
    } else {
        Some(hex_value(d) as u32)
    }
}

proof fn lemma_hex_prefix_bound(d: Seq<char>, k: int)
    requires
        0 <= k <= d.len(),
        forall|i: int| 0 <= i < d.len() ==> hex_val(#[trigger] d[i]) >= 0,
    ensures
        hex_value(d.subrange(0, k)) <= hex_value(d),
    decreases d.len() - k,
{
    if k < d.len() {
        lemma_hex_prefix_bound(d, k + 1);
        assert(d.subrange(0, k + 1).drop_last() =~= d.subrange(0, k));
    } else {
        assert(d.subrange(0, k) =~= d);
    }
}

fn hex_val_exec(c: char) -> (r: i32)
    ensures
        r == hex_val(c),
{
    if c >= '0' && c <= '9' {
        (c as u32 - '0' as u32) as i32
    } else if c >= 'a' && c <= 'f' {
        (c as u32 - 'a' as u32 + 10) as i32
    } else if c >= 'A' && c <= 'F' {
        (c as u32 - 'A' as u32 + 10) as i32
    } else {
        -1
    }
}

/// Parse a user-name colour (see `parse_hex_color_spec`).
pub fn parse_hex_color(s: &str) -> (r: Option<u32>)
    ensures
        r == parse_hex_color_spec(s@),
{
    let v = chars_of(s);
    let n = v.len();
    let mut i: usize = 0;
    assert(v@.subrange(0, n as int) =~= v@);
    while i < n && v[i] == '#'
        invariant
            v@ == s@,
            n == v@.len(),
            i <= n,
            strip_hashes(s@) == strip_hashes(v@.subrange(i as int, n as int)),
        decreases n - i,
    {
        assert(v@.subrange(i as int, n as int).drop_first() =~= v@.subrange(i + 1, n as int));
        i = i + 1;
    }
    let ghost t = v@.subrange(i as int, n as int);
    assert(strip_hashes(t) == t);
    if i < n && v[i] == '+' {
        i = i + 1;
    }
    let ghost d = hex_digits(t);
    assert(d =~= v@.subrange(i as int, n as int));
    if i >= n {
        return None;
    }
    let start = i;
    let mut acc: u32 = 0;
    while i < n
        invariant
            v@ == s@,
            n == v@.len(),
            start < n,
            start <= i <= n,
            d == v@.subrange(start as int, n as int),
            d == hex_digits(strip_hashes(s@)),
            forall|k: int| start <= k < i ==> hex_val(#[trigger] v@[k]) >= 0,
            acc as nat == hex_value(v@.subrange(start as int, i as int)),
        decreases n - i,
    {
        let x = hex_val_exec(v[i]);
        if x < 0 {
            assert(d[i - start] == v@[i as int]);
            return None;
        }
        assert(v@.subrange(start as int, i + 1).drop_last() =~= v@.subrange(start as int, i as int));
        if acc > (u32::MAX - x as u32) / 16 {
            proof {
                assert(acc * 16 + x > u32::MAX) by (nonlinear_arith)
                    requires
                        acc > (u32::MAX - x as u32) / 16,
                        0 <= x < 16,
                ;
                if forall|j: int| 0 <= j < d.len() ==> hex_val(#[trigger] d[j]) >= 0 {
                    lemma_hex_prefix_bound(d, i + 1 - start);
                    assert(d.subrange(0, i + 1 - start) =~= v@.subrange(start as int, i + 1));
                }
            }
            return None;
        }
        assert(acc * 16 + x <= u32::MAX) by (nonlinear_arith)
            requires
                acc <= (u32::MAX - x as u32) / 16,
                0 <= x < 16,
        ;
        acc = acc * 16 + x as u32;
        i = i + 1;
    }
    assert(v@.subrange(start as int, n as int) =~= d);
    Some(acc)
}

/// The colour of a user name: its colour if it parses, else grey.
pub fn name_color(color: &str) -> (r: u32)
    ensures
        r == (match parse_hex_color_spec(color@) {
            Some(c) => c,
            None => DEFAULT_NAME_COLOR,
        }),
{
    match parse_hex_color(color) {
        Some(c) => c,
        None => DEFAULT_NAME_COLOR,
    }
}

// ---------------------------------------------------------------------
// Sending
// ---------------------------------------------------------------------

/// Unicode white space, as `char::is_whitespace` tests it.
pub open spec fn is_white(c: char) -> bool {
    ||| ('\u{9}' <= c && c <= '\u{d}')
    ||| c == ' '
    ||| c == '\u{85}'
    ||| c == '\u{a0}'
    ||| c == '\u{1680}'
    ||| ('\u{2000}' <= c && c <= '\u{200a}')
    ||| c == '\u{2028}'
    ||| c == '\u{2029}'
    ||| c == '\u{202f}'
    ||| c == '\u{205f}'
    ||| c == '\u{3000}'
}

fn is_white_exec(c: char) -> (r: bool)
    ensures
        r == is_white(c),
{
    (c >= '\u{9}' && c <= '\u{d}') || c == ' ' || c == '\u{85}' || c == '\u{a0}' || c == '\u{1680}' || (c
        >= '\u{2000}' && c <= '\u{200a}') || c == '\u{2028}' || c == '\u{2029}' || c == '\u{202f}' || c
        == '\u{205f}' || c == '\u{3000}'
}

/// `s` without leading white space.
pub open spec fn trim_start(s: Seq<char>) -> Seq<char>
    decreases s.len(),
{
    if s.len() > 0 && is_white(s[0]) {
        trim_start(s.drop_first())
    } else {
        s
    }
}

/// `s` without trailing white space.
pub open spec fn trim_end(s: Seq<char>) -> Seq<char>
    decreases s.len(),
{
    if s.len() > 0 && is_white(s.last()) {
        trim_end(s.drop_last())
    } else {
        s
    }
}

/// `str::trim`.
pub open spec fn trim(s: Seq<char>) -> Seq<char> {
    trim_end(trim_start(s))
}

/// The send button: the input without surrounding white space, if
/// anything is left to send.
pub fn text_to_send(input: &str) -> (r: Option<String>)
    ensures
        trim(input@).len() == 0 ==> r is None,
        trim(input@).len() > 0 ==> (r matches Some(t) && t@ == trim(input@)),
{
    let v = chars_of(input);
    let n = v.len();
    let mut i: usize = 0;
    assert(v@.subrange(0, n as int) =~= v@);
    while i < n && is_white_exec(v[i])
        invariant
            v@ == input@,
            n == v@.len(),
            i <= n,
            trim_start(input@) == trim_start(v@.subrange(i as int, n as int)),
        decreases n - i,
    {
        assert(v@.subrange(i as int, n as int).drop_first() =~= v@.subrange(i + 1, n as int));
        i = i + 1;
    }
    let ghost ts = v@.subrange(i as int, n as int);
    assert(trim_start(ts) == ts);
    let mut j: usize = n;
    while j > i && is_white_exec(v[j - 1])
        invariant
            v@ == input@,
            n == v@.len(),
            i <= j <= n,
            ts == v@.subrange(i as int, n as int),
            trim_start(input@) == ts,
            trim_end(ts) == trim_end(v@.subrange(i as int, j as int)),
        decreases j,
    {
        assert(v@.subrange(i as int, j as int).drop_last() =~= v@.subrange(i as int, j - 1));
        j = j - 1;
    }
    let ghost te = v@.subrange(i as int, j as int);
    assert(trim_end(te) == te);
    if i == j {
        return None;
    }
    let t = input.substring_char(i, j);
    Some(crate::text::string_of(t))
}

// ---------------------------------------------------------------------
// Stickers
// ---------------------------------------------------------------------

/// The sticker files among `names`, in order.
pub open spec fn sticker_files(names: Seq<Seq<char>>) -> Seq<Seq<char>>
    decreases names.len(),
{
    if names.len() == 0 {
        names
    } else if is_sticker_file(names.last()) {
        sticker_files(names.drop_last()).push(names.last())
    } else {
        sticker_files(names.drop_last())
    }
}

/// `String` order: byte-wise on the UTF-8 encodings.
pub open spec fn string_lt(a: Seq<char>, b: Seq<char>) -> bool {
    lex_lt(vstd::utf8::encode_utf8(a), vstd::utf8::encode_utf8(b))
}

/// Where an insertion sort puts `x` into sorted `s`: before the first
/// element ordered after it.
pub open spec fn string_insert_pos(s: Seq<Seq<char>>, x: Seq<char>, i: int) -> int
    decreases s.len() - i,
{
    if i < 0 || i >= s.len() {
        s.len() as int
    } else if string_lt(x, s[i]) {
        i
    } else {
        string_insert_pos(s, x, i + 1)
    }
}

/// `s` sorted as `sort` sorts strings.
pub open spec fn sort_strings(s: Seq<Seq<char>>) -> Seq<Seq<char>>
    decreases s.len(),
{
    if s.len() == 0 {
        s
    } else {
        let sorted = sort_strings(s.drop_last());
        sorted.insert(string_insert_pos(sorted, s.last(), 0), s.last())
    }
}

/// Insert `name` into the sorted list `out` where the insertion sort of
/// `sort_strings` puts it.
pub(crate) fn insert_sorted(out: &mut Vec<String>, name: String)
    ensures
        crate::player_tracks::strings_view(final(out)@) == ({
            let sorted = crate::player_tracks::strings_view(old(out)@);
            sorted.insert(string_insert_pos(sorted, name@, 0), name@)
        }),
{
    let ghost sorted = crate::player_tracks::strings_view(out@);
    let mut p: usize = 0;
    while p < out.len() && !str_lt(name.as_str(), out[p].as_str())
        invariant
            sorted == crate::player_tracks::strings_view(out@),
            p <= out@.len(),
            string_insert_pos(sorted, name@, 0) == string_insert_pos(sorted, name@, p as int),
        decreases out@.len() - p,
    {
        assert(sorted[p as int] == out@[p as int]@);
        p = p + 1;
    }
    if p < out.len() {
        assert(sorted[p as int] == out@[p as int]@);
    }
    assert(string_insert_pos(sorted, name@, p as int) == p);
    out.insert(p, name);
    assert(crate::player_tracks::strings_view(out@) =~= sorted.insert(p as int, name@));
}

/// The sticker picker's list, from the names of the files in the
/// sticker directory: the `.png` and `.gif` ones, sorted.
pub fn sticker_names(files: Vec<String>) -> (r: Vec<String>)
    ensures
        crate::player_tracks::strings_view(r@) == sort_strings(sticker_files(crate::player_tracks::strings_view(files@))),
{
    let ghost fv = crate::player_tracks::strings_view(files@);
    let n = files.len();
    let mut out: Vec<String> = Vec::new();
    let mut k: usize = 0;
    while k < n
        invariant
            n == files@.len(),
            fv == crate::player_tracks::strings_view(files@),
            k <= n,
            crate::player_tracks::strings_view(out@) == sort_strings(sticker_files(fv.take(k as int))),
        decreases n - k,
    {
        let name = files[k].clone();
        proof {
            assert(fv.take(k + 1).drop_last() =~= fv.take(k as int));
            assert(fv.take(k + 1).last() == name@);
        }
        let cv = chars_of(name.as_str());
        let keep = ends_with_exec(&cv, ".png") || ends_with_exec(&cv, ".gif");
        assert(keep == is_sticker_file(name@));
        assert(sticker_files(fv.take(k + 1)) == (if keep {
            sticker_files(fv.take(k as int)).push(name@)
        } else {
            sticker_files(fv.take(k as int))
        }));
        if keep {
            insert_sorted(&mut out, name);
            proof {
                let x = sticker_files(fv.take(k as int));
                assert(x.push(cv@).drop_last() =~= x);
            }
        }
        k = k + 1;
    }
    assert(fv.take(n as int) =~= fv);
    out
}

/// The buffer never holds more than 500 messages, and the message just
/// pushed is the newest one kept.
pub proof fn law_buffer_bounded(s: Seq<ChatMessage>, m: ChatMessage)
    ensures
        keep_last(s.push(m), MAX_MESSAGES as nat).len() <= MAX_MESSAGES,
        keep_last(s.push(m), MAX_MESSAGES as nat).last() == m,
        s.len() < MAX_MESSAGES ==> keep_last(s.push(m), MAX_MESSAGES as nat) == s.push(m),
{
}

} // verus!
