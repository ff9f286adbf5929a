//! The channel sidebar: the channel list received from the server
//! (sorted by case-insensitive name, keeping the selected channel), the
//! search filter, and the sections drawn: "memory" (the current channel
//! then the parked ones, five at most), favourites, then all channels.

use vstd::prelude::*;
use crate::text::{str_contains, str_contains_spec, str_eq};
use crate::chat::string_lt;
use crate::player_tracks::{lemma_lex_asym, lemma_lex_trans, str_lt};

verus! {

/// A channel of the sidebar.
pub struct Channel {
    pub id: String,
    pub name: String,
    pub handle: String,
    pub avatar_url: String,
}

/// A channel button was clicked.
pub struct ChannelSelected {
    pub channel_id: String,
    pub channel_name: String,
    pub handle: String,
}

/// The hovered channel changed: `(id, name)` of the channel under the
/// pointer, or `None` when the pointer left a channel button.
pub struct ChannelHovered(pub Option<(String, String)>);

/// A channel button was right-clicked: toggle that channel's favourite
/// state.
pub struct ChannelFavoriteToggle(pub String);

/// What `str::to_lowercase` gives for a string (Unicode lower case,
/// independent of any locale).
pub uninterp spec fn lowercase_of(s: Seq<char>) -> Seq<char>;

/// `str::to_lowercase`.
#[verifier::external_body]
fn to_lowercase(s: &str) -> (r: String)
    ensures
        r@ == lowercase_of(s@),
{
    s.to_lowercase()
}

/// Channel `a` sorts before `b`: by lower-cased name.
pub open spec fn name_lt(a: Channel, b: Channel) -> bool {
    string_lt(lowercase_of(a.name@), lowercase_of(b.name@))
}

/// Where a stable insertion puts `x` into `s`.
pub open spec fn channel_insert_pos(s: Seq<Channel>, x: Channel, i: int) -> int
    decreases s.len() - i,
{
    if i < 0 || i >= s.len() {
        s.len() as int
    } else if name_lt(x, s[i]) {
        i
    } else {
        channel_insert_pos(s, x, i + 1)
    }
}

/// `s` stably sorted by lower-cased name (what `sort_by` gives).
pub open spec fn sort_channels(s: Seq<Channel>) -> Seq<Channel>
    decreases s.len(),
{
    if s.len() == 0 {
        s
    } else {
        let sorted = sort_channels(s.drop_last());
        sorted.insert(channel_insert_pos(sorted, s.last(), 0), s.last())
    }
}

/// The channels built from the server's `(id, name, handle, avatar)`.
pub open spec fn channels_of(server: Seq<(String, String, String, String)>) -> Seq<Channel> {
    Seq::new(server.len(), |i: int| Channel { id: server[i].0, name: server[i].1, handle: server[i].2, avatar_url: server[i].3 })
}

/// Index of the first channel with id `id`.
pub open spec fn index_of_channel(s: Seq<Channel>, id: Seq<char>) -> Option<int>
    decreases s.len(),
{
    if s.len() == 0 {
        None
    } else if s[0].id@ == id {
        Some(0)
    } else {
        match index_of_channel(s.drop_first(), id) {
            Some(i) => Some(i + 1),
            None => None,
        }
    }
}

/// A kind of row of the sidebar.
#[derive(Copy, Clone, PartialEq, Eq, Debug, Structural)]
pub enum Section {
    Memory,
    Favorites,
    Main,
}

/// A row of the sidebar: a section header, or the button of channel
/// `index` in a section.
#[derive(Copy, Clone, PartialEq, Eq, Debug, Structural)]
pub enum SidebarRow {
    Header(Section),
    Button(usize, Section),
}

/// The sidebar's state.
pub struct SidebarView {
    pub channels: Vec<Channel>,
    pub selected: usize,
    pub search_query: String,
    /// Channels parked in the player's memory cache, most recent first.
    pub memory_channel_ids: Vec<String>,
    pub favorite_channel_ids: Vec<String>,
    pub user_logged_in: bool,
    /// Encoded avatar images by channel id.
    pub avatars: Vec<(String, Vec<u8>)>,
}

/// An avatar entry whose channel is in `channels`.
pub open spec fn avatar_listed(channels: Seq<Channel>) -> spec_fn((String, Vec<u8>)) -> bool {
    |e: (String, Vec<u8>)| index_of_channel(channels, e.0@) is Some
}

/// Index of the first avatar entry of channel `id`.
pub open spec fn avatar_index(v: Seq<(String, Vec<u8>)>, id: Seq<char>, from: int) -> Option<int>
    decreases v.len() - from,
{
    if from < 0 || from >= v.len() {
        None
    } else if v[from].0@ == id {
        Some(from)
    } else {
        avatar_index(v, id, from + 1)
    }
}

/// The memory section: the current channel, then the parked ones found
/// in the list (not the current one again), five at most; `acc` holds
/// what was gathered before the ids `ids`.
pub open spec fn memory_rows(channels: Seq<Channel>, selected: int, ids: Seq<String>, acc: Seq<usize>) -> Seq<usize>
    decreases ids.len(),
{
    if acc.len() >= 5 || ids.len() == 0 {
        acc
    } else {
        let acc2 = match index_of_channel(channels, ids[0]@) {
            Some(i) => if i != selected {
                acc.push(i as usize)
            } else {
                acc
            },
            None => acc,
        };
        memory_rows(channels, selected, ids.drop_first(), acc2)
    }
}

/// The favourites section: the favourite ids found in the list.
pub open spec fn favorite_rows(channels: Seq<Channel>, ids: Seq<String>) -> Seq<usize>
    decreases ids.len(),
{
    if ids.len() == 0 {
        Seq::empty()
    } else {
        let rest = favorite_rows(channels, ids.drop_last());
        match index_of_channel(channels, ids.last()@) {
            Some(i) => rest.push(i as usize),
            None => rest,
        }
    }
}

/// The main section: the channels whose lower-cased name contains the
/// lower-cased query (all of them for an empty query), among the first `k`.
pub open spec fn main_rows(channels: Seq<Channel>, q: Seq<char>, k: int) -> Seq<usize>
    decreases k,
{
    if k <= 0 || k > channels.len() {
        Seq::empty()
    } else {
        let rest = main_rows(channels, q, k - 1);
        if q.len() == 0 || str_contains_spec(lowercase_of(channels[k - 1].name@), q) {
            rest.push((k - 1) as usize)
        } else {
            rest
        }
    }
}

/// What the main section is filtered by: the lower-cased query, or
/// nothing for an empty query.
pub open spec fn search_key(q: Seq<char>) -> Seq<char> {
    if q.len() == 0 {
        Seq::empty()
    } else {
        lowercase_of(q)
    }
}

/// The rows drawn for sections `mem`, `fav`, `main`: a memory header
/// when the memory section is not empty, a favourites header before the
/// first favourite, a channels header before the first channel of the
/// main section, and a button per entry.
pub open spec fn rows_of(mem: Seq<usize>, fav: Seq<usize>, main: Seq<usize>) -> Seq<SidebarRow> {
    let m = if mem.len() > 0 { seq![SidebarRow::Header(Section::Memory)] } else { Seq::empty() };
    let f = if fav.len() > 0 { seq![SidebarRow::Header(Section::Favorites)] } else { Seq::empty() };
    let t = if main.len() > 0 { seq![SidebarRow::Header(Section::Main)] } else { Seq::empty() };
    m + mem.map_values(|i: usize| SidebarRow::Button(i, Section::Memory)) + f + fav.map_values(
        |i: usize| SidebarRow::Button(i, Section::Favorites),
    ) + t + main.map_values(|i: usize| SidebarRow::Button(i, Section::Main))
}

fn index_of_channel_exec(channels: &Vec<Channel>, id: &str) -> (r: Option<usize>)
    ensures
        r matches Some(i) ==> index_of_channel(channels@, id@) == Some(i as int) && i < channels@.len(),
        r is None ==> index_of_channel(channels@, id@) is None,
{
    let n = channels.len();
    let mut i: usize = 0;
    assert(channels@.subrange(0, n as int) =~= channels@);
    while i < n
        invariant
            n == channels@.len(),
            i <= n,
            index_of_channel(channels@, id@) == match index_of_channel(channels@.subrange(i as int, n as int), id@) {
                Some(j) => Some(j + i),
                None => None,
            },
        decreases n - i,
    {
        let ghost rest = channels@.subrange(i as int, n as int);
        assert(rest[0] == channels@[i as int]);
        if str_eq(channels[i].id.as_str(), id) {
            assert(index_of_channel(rest, id@) == Some(0int));
            return Some(i);
        }
        assert(rest.drop_first() =~= channels@.subrange(i + 1, n as int));
        i = i + 1;
    }
    None
}

/// The index found is that of a channel of the list.
proof fn lemma_index_of_channel_bound(s: Seq<Channel>, id: Seq<char>)
    ensures
        index_of_channel(s, id) matches Some(i) ==> 0 <= i < s.len() && s[i].id@ == id,
    decreases s.len(),
{
    if s.len() > 0 && s[0].id@ != id {
        lemma_index_of_channel_bound(s.drop_first(), id);
    }
}

/// The letter shown on a channel without an avatar: the first
/// character of its name, `?` for an empty name.
pub fn name_initial(name: &str) -> (r: String)
    ensures
        name@.len() > 0 ==> r@ == seq![name@[0]],
        name@.len() == 0 ==> r@ == seq!['?'],
{
    let mut s = String::new();
    if name.unicode_len() > 0 {
        crate::text::push_char(&mut s, name.get_char(0));
    } else {
        crate::text::push_char(&mut s, '?');
    }
    assert(s@ =~= if name@.len() > 0 { seq![name@[0]] } else { seq!['?'] });
    s
}

impl SidebarView {
    /// An empty sidebar.
    pub fn new() -> (r: Self)
        ensures
            r.channels@.len() == 0,
            r.selected == 0,
            r.search_query@.len() == 0,
            r.memory_channel_ids@.len() == 0,
            r.avatars@.len() == 0,
            r.favorite_channel_ids@.len() == 0,
            !r.user_logged_in,
    {
        SidebarView {
            channels: Vec::new(),
            selected: 0,
            search_query: String::new(),
            memory_channel_ids: Vec::new(),
            favorite_channel_ids: Vec::new(),
            user_logged_in: false,
            avatars: Vec::new(),
        }
    }

    pub fn set_memory_channel_ids(&mut self, ids: Vec<String>)
        ensures
            final(self).memory_channel_ids == ids,
            final(self).channels == old(self).channels,
            final(self).selected == old(self).selected,
    {
        self.memory_channel_ids = ids;
    }

    pub fn set_favorites(&mut self, ids: Vec<String>)
        ensures
            final(self).favorite_channel_ids == ids,
            final(self).channels == old(self).channels,
            final(self).selected == old(self).selected,
    {
        self.favorite_channel_ids = ids;
    }

    pub fn set_logged_in(&mut self, logged_in: bool)
        ensures
            final(self).user_logged_in == logged_in,
            final(self).channels == old(self).channels,
            final(self).selected == old(self).selected,
    {
        self.user_logged_in = logged_in;
    }

    pub fn set_search_query(&mut self, q: String)
        ensures
            final(self).search_query == q,
            final(self).channels == old(self).channels,
            final(self).selected == old(self).selected,
    {
        self.search_query = q;
    }

    /// `(id, name, handle)` of the selected channel.
    pub fn selected_channel(&self) -> (r: Option<(String, String, String)>)
        ensures
            self.selected < self.channels@.len() ==> (r matches Some((id, name, handle)) && id
                == self.channels@[self.selected as int].id && name == self.channels@[self.selected as int].name
                && handle == self.channels@[self.selected as int].handle),
            self.selected >= self.channels@.len() ==> r is None,
    {
        if self.selected < self.channels.len() {
            let c = &self.channels[self.selected];
            Some((c.id.clone(), c.name.clone(), c.handle.clone()))
        } else {
            None
        }
    }

    /// A channel button was clicked: it becomes the selected channel.
    pub fn select(&mut self, i: usize)
        ensures
            final(self).selected == i,
            final(self).channels == old(self).channels,
    {
        self.selected = i;
    }

    /// Channel `i`'s button was clicked: it becomes the selected channel,
    /// and the click reports its id, name and handle.
    pub fn click_channel(&mut self, i: usize) -> (r: ChannelSelected)
        requires
            i < old(self).channels@.len(),
        ensures
            final(self).selected == i,
            final(self).channels == old(self).channels,
            r.channel_id@ == old(self).channels@[i as int].id@,
            r.channel_name@ == old(self).channels@[i as int].name@,
            r.handle@ == old(self).channels@[i as int].handle@,
    {
        self.selected = i;
        let c = &self.channels[i];
        ChannelSelected { channel_id: c.id.clone(), channel_name: c.name.clone(), handle: c.handle.clone() }
    }

    /// The pointer entered (`hovered`) or left channel `i`'s button.
    pub fn hover_channel(&self, i: usize, hovered: bool) -> (r: ChannelHovered)
        requires
            i < self.channels@.len(),
        ensures
            hovered ==> (r.0 matches Some((id, name)) && id@ == self.channels@[i as int].id@ && name@
                == self.channels@[i as int].name@),
            !hovered ==> r.0 is None,
    {
        if hovered {
            let c = &self.channels[i];
            ChannelHovered(Some((c.id.clone(), c.name.clone())))
        } else {
            ChannelHovered(None)
        }
    }

    /// Channel `i`'s button was right-clicked.
    pub fn right_click_channel(&self, i: usize) -> (r: ChannelFavoriteToggle)
        requires
            i < self.channels@.len(),
        ensures
            r.0@ == self.channels@[i as int].id@,
    {
        ChannelFavoriteToggle(self.channels[i].id.clone())
    }

    /// Install the list received from the server (`(id, name, handle,
    /// avatar)` per channel), sorted by lower-cased name; the selected
    /// channel stays selected if still listed, else `nanos` (a random
    /// number) picks one: `nanos % count` (0 for an empty list).
    pub fn apply_channels(&mut self, server: Vec<(String, String, String, String)>, nanos: u32)
        ensures
            final(self).channels@ == sort_channels(channels_of(server@)),
            ({
                let old_id = if old(self).selected < old(self).channels@.len() {
                    Some(old(self).channels@[old(self).selected as int].id@)
                } else {
                    None
                };
                let kept = match old_id {
                    Some(id) => index_of_channel(final(self).channels@, id),
                    None => None,
                };
                &&& (kept matches Some(ix) ==> final(self).selected == ix)
                &&& (kept is None ==> final(self).selected == (if final(self).channels@.len() == 0 {
                    0
                } else {
                    nanos as int % final(self).channels@.len() as int
                }))
            }),
            final(self).search_query == old(self).search_query,
            final(self).memory_channel_ids == old(self).memory_channel_ids,
            final(self).favorite_channel_ids == old(self).favorite_channel_ids,
            final(self).user_logged_in == old(self).user_logged_in,
            final(self).avatars@ == old(self).avatars@.filter(avatar_listed(final(self).channels@)),
    {
        let current_id: Option<String> = if self.selected < self.channels.len() {
            Some(self.channels[self.selected].id.clone())
        } else {
            None
        };
        let ghost sv = server@;
        let n = server.len();
        let mut sorted: Vec<Channel> = Vec::new();
        let mut keys: Vec<String> = Vec::new();
        let mut server = server;
        let mut rev: Vec<(String, String, String, String)> = Vec::new();
        // Take the entries out in order (pop from the back, then reverse).
        while server.len() > 0
            invariant
                server@.len() + rev@.len() == sv.len(),
                server@ == sv.subrange(0, server@.len() as int),
                forall|k: int| 0 <= k < rev@.len() ==> #[trigger] rev@[k] == sv[sv.len() - 1 - k],
            decreases server@.len(),
        {
            let e = server.pop().unwrap();
            rev.push(e);
            assert(server@ =~= sv.subrange(0, server@.len() as int));
        }
        let mut k: usize = 0;
        while rev.len() > 0
            invariant
                n == sv.len(),
                rev@.len() + k == sv.len(),
                forall|j: int| 0 <= j < rev@.len() ==> #[trigger] rev@[j] == sv[sv.len() - 1 - j],
                sorted@ == sort_channels(channels_of(sv).take(k as int)),
                keys@.len() == sorted@.len(),
                forall|j: int| 0 <= j < keys@.len() ==> #[trigger] keys@[j]@ == lowercase_of(sorted@[j].name@),
            decreases rev@.len(),
        {
            let (id, name, handle, avatar_url) = rev.pop().unwrap();
            let ch = Channel { id, name, handle, avatar_url };
            assert(ch == channels_of(sv)[k as int]);
            let key = to_lowercase(ch.name.as_str());
            let mut p: usize = 0;
            let ghost before = sorted@;
            while p < sorted.len() && !str_lt(key.as_str(), keys[p].as_str())
                invariant
                    before == sorted@,
                    keys@.len() == sorted@.len(),
                    forall|j: int| 0 <= j < keys@.len() ==> #[trigger] keys@[j]@ == lowercase_of(sorted@[j].name@),
                    key@ == lowercase_of(ch.name@),
                    p <= sorted@.len(),
                    channel_insert_pos(before, ch, 0) == channel_insert_pos(before, ch, p as int),
                decreases sorted@.len() - p,
            {
                assert(keys@[p as int]@ == lowercase_of(sorted@[p as int].name@));
                p = p + 1;
            }
            if p < sorted.len() {
                assert(keys@[p as int]@ == lowercase_of(sorted@[p as int].name@));
            }
            assert(channel_insert_pos(before, ch, p as int) == p);
            let ghost keys_before = keys@;
            sorted.insert(p, ch);
            keys.insert(p, key);
            proof {
                let x = channels_of(sv).take(k as int);
                assert(channels_of(sv).take(k + 1).drop_last() =~= x);
                assert(sorted@ =~= before.insert(p as int, channels_of(sv)[k as int]));
                assert(keys@ =~= keys_before.insert(p as int, key));
                assert forall|j: int| 0 <= j < keys@.len() implies #[trigger] keys@[j]@ == lowercase_of(sorted@[j].name@) by {
                    if j < p {
                        assert(keys@[j] == keys_before[j]);
                        assert(sorted@[j] == before[j]);
                    } else if j > p {
                        assert(keys@[j] == keys_before[j - 1]);
                        assert(sorted@[j] == before[j - 1]);
                    }
                }
            }
            k = k + 1;
        }
        assert(channels_of(sv).take(sv.len() as int) =~= channels_of(sv));
        self.channels = sorted;
        self.prune_avatars();
        if let Some(id) = current_id {
            if let Some(ix) = index_of_channel_exec(&self.channels, id.as_str()) {
                self.selected = ix;
                return;
            }
        }
        self.selected = if self.channels.len() == 0 {
            0
        } else {
            nanos as usize % self.channels.len()
        };
    }

    /// Drop the avatars of channels that are no longer listed.
    fn prune_avatars(&mut self)
        ensures
            final(self).avatars@ == old(self).avatars@.filter(avatar_listed(old(self).channels@)),
            final(self).channels == old(self).channels,
            final(self).selected == old(self).selected,
            final(self).search_query == old(self).search_query,
            final(self).memory_channel_ids == old(self).memory_channel_ids,
            final(self).favorite_channel_ids == old(self).favorite_channel_ids,
            final(self).user_logged_in == old(self).user_logged_in,
    {
        let ghost orig = self.avatars@;
        let ghost pred = avatar_listed(self.channels@);
        let mut rest: Vec<(String, Vec<u8>)> = Vec::new();
        std::mem::swap(&mut rest, &mut self.avatars);
        let total = rest.len();
        let mut kept: Vec<(String, Vec<u8>)> = Vec::new();
        let mut k: usize = 0;
        proof {
            reveal(Seq::filter);
            assert(orig.take(0) =~= Seq::<(String, Vec<u8>)>::empty());
        }
        while rest.len() > 0
            invariant
                k <= orig.len(),
                total == orig.len(),
                rest@ == orig.skip(k as int),
                kept@ == orig.take(k as int).filter(pred),
                pred == avatar_listed(self.channels@),
                self.channels == old(self).channels,
                self.selected == old(self).selected,
                self.search_query == old(self).search_query,
                self.memory_channel_ids == old(self).memory_channel_ids,
                self.favorite_channel_ids == old(self).favorite_channel_ids,
                self.user_logged_in == old(self).user_logged_in,
            decreases rest@.len(),
        {
            let e = rest.remove(0);
            proof {
                reveal(Seq::filter);
                assert(e == orig[k as int]);
                assert(orig.take(k + 1).drop_last() =~= orig.take(k as int));
                assert(orig.take(k + 1).last() == e);
                assert(rest@ =~= orig.skip(k + 1));
            }
            let listed = index_of_channel_exec(&self.channels, e.0.as_str()).is_some();
            if listed {
                kept.push(e);
            }
            k = k + 1;
        }
        proof {
            assert(orig.take(k as int) =~= orig);
        }
        self.avatars = kept;
    }

    /// Keep `image` as the avatar of channel `channel_id`, replacing the
    /// one it had.
    pub fn set_avatar(&mut self, channel_id: String, image: Vec<u8>)
        ensures
            match avatar_index(old(self).avatars@, channel_id@, 0) {
                Some(i) => final(self).avatars@ == old(self).avatars@.update(i, (channel_id, image)),
                None => final(self).avatars@ == old(self).avatars@.push((channel_id, image)),
            },
            final(self).channels == old(self).channels,
            final(self).selected == old(self).selected,
            final(self).search_query == old(self).search_query,
            final(self).memory_channel_ids == old(self).memory_channel_ids,
            final(self).favorite_channel_ids == old(self).favorite_channel_ids,
            final(self).user_logged_in == old(self).user_logged_in,
    {
        let n = self.avatars.len();
        let mut i: usize = 0;
        while i < n
            invariant
                n == self.avatars@.len(),
                i <= n,
                *self == *old(self),
                avatar_index(self.avatars@, channel_id@, 0) == avatar_index(self.avatars@, channel_id@, i as int),
            decreases n - i,
        {
            if str_eq(self.avatars[i].0.as_str(), channel_id.as_str()) {
                self.avatars.set(i, (channel_id, image));
                return;
            }
            i = i + 1;
        }
        self.avatars.push((channel_id, image));
    }

    /// Install the list received from the server (see `apply_channels`),
    /// picking at random when the selected channel is gone.
    pub fn set_channels_from_server(&mut self, server: Vec<(String, String, String, String)>)
        ensures
            final(self).channels@ == sort_channels(channels_of(server@)),
            final(self).channels@.len() == 0 ==> final(self).selected == 0,
            final(self).channels@.len() > 0 ==> final(self).selected < final(self).channels@.len(),
            ({
                let old_id = if old(self).selected < old(self).channels@.len() {
                    Some(old(self).channels@[old(self).selected as int].id@)
                } else {
                    None
                };
                match old_id {
                    Some(id) => match index_of_channel(final(self).channels@, id) {
                        Some(ix) => final(self).selected == ix,
                        None => true,
                    },
                    None => true,
                }
            }),
            final(self).search_query == old(self).search_query,
            final(self).memory_channel_ids == old(self).memory_channel_ids,
            final(self).favorite_channel_ids == old(self).favorite_channel_ids,
            final(self).user_logged_in == old(self).user_logged_in,
            final(self).avatars@ == old(self).avatars@.filter(avatar_listed(final(self).channels@)),
            forall|i: int| 0 <= i < final(self).avatars@.len() ==> index_of_channel(final(self).channels@, #[trigger] final(self).avatars@[i].0@) is Some,
    {
        let nanos = crate::clock::clock_subsec_nanos();
        self.apply_channels(server, nanos);
        proof {
            let pred = avatar_listed(self.channels@);
            assert forall|i: int| 0 <= i < self.avatars@.len() implies index_of_channel(self.channels@, #[trigger] self.avatars@[i].0@) is Some by {
                old(self).avatars@.lemma_filter_pred(pred, i);
            }
        }
        proof {
            if old(self).selected < old(self).channels@.len() {
                lemma_index_of_channel_bound(self.channels@, old(self).channels@[old(self).selected as int].id@);
            }
        }
    }

    /// The channel with id `id` is listed (its avatar is kept).
    pub fn has_channel(&self, id: &str) -> (r: bool)
        ensures
            r == index_of_channel(self.channels@, id@) is Some,
    {
        index_of_channel_exec(&self.channels, id).is_some()
    }

    /// The rows of the sidebar (see `rows_of`): the memory section for
    /// the selected channel and the parked ones, the favourites, and the
    /// channels matching the search query.
    #[verifier::spinoff_prover]
    #[verifier::rlimit(40)]
    pub fn rows(&self) -> (r: Vec<SidebarRow>)
        ensures
            r@ == rows_of(
                memory_rows(
                    self.channels@,
                    self.selected as int,
                    self.memory_channel_ids@,
                    if self.selected < self.channels@.len() { seq![self.selected] } else { Seq::empty() },
                ),
                favorite_rows(self.channels@, self.favorite_channel_ids@),
                main_rows(self.channels@, search_key(self.search_query@), self.channels@.len() as int),
            ),
    {
        // Memory section.
        let mut mem: Vec<usize> = Vec::new();
        if self.selected < self.channels.len() {
            mem.push(self.selected);
        }
        let ghost acc0 = mem@;
        let ids = &self.memory_channel_ids;
        let mut k: usize = 0;
        let nm = ids.len();
        assert(ids@.subrange(0, nm as int) =~= ids@);
        while k < nm && mem.len() < 5
            invariant
                nm == ids@.len(),
                k <= nm,
                memory_rows(self.channels@, self.selected as int, ids@, acc0) == memory_rows(
                    self.channels@,
                    self.selected as int,
                    ids@.subrange(k as int, nm as int),
                    mem@,
                ),
            decreases nm - k,
        {
            let ghost rest = ids@.subrange(k as int, nm as int);
            assert(rest[0] == ids@[k as int]);
            assert(rest.drop_first() =~= ids@.subrange(k + 1, nm as int));
            if let Some(i) = index_of_channel_exec(&self.channels, ids[k].as_str()) {
                if i != self.selected {
                    mem.push(i);
                }
            }
            k = k + 1;
        }
        proof {
            if k == nm {
                assert(ids@.subrange(k as int, nm as int).len() == 0);
            }
        }
        let ghost memv = mem@;
        assert(memv == memory_rows(self.channels@, self.selected as int, ids@, acc0));
        // Favourites section.
        let fids = &self.favorite_channel_ids;
        let nf = fids.len();
        let mut fav: Vec<usize> = Vec::new();
        let mut j: usize = 0;
        while j < nf
            invariant
                nf == fids@.len(),
                j <= nf,
                fav@ == favorite_rows(self.channels@, fids@.take(j as int)),
            decreases nf - j,
        {
            assert(fids@.take(j + 1).drop_last() =~= fids@.take(j as int));
            if let Some(i) = index_of_channel_exec(&self.channels, fids[j].as_str()) {
                fav.push(i);
            }
            j = j + 1;
        }
        assert(fids@.take(nf as int) =~= fids@);
        // Main section.
        let q = if self.search_query.as_str().unicode_len() == 0 {
            String::new()
        } else {
            to_lowercase(self.search_query.as_str())
        };
        let empty_q = q.as_str().unicode_len() == 0;
        let nc = self.channels.len();
        let mut main: Vec<usize> = Vec::new();
        let mut c: usize = 0;
        while c < nc
            invariant
                nc == self.channels@.len(),
                c <= nc,
                q@ == search_key(self.search_query@),
                empty_q == (q@.len() == 0),
                main@ == main_rows(self.channels@, q@, c as int),
            decreases nc - c,
        {
            let keep = empty_q || {
                let lname = to_lowercase(self.channels[c].name.as_str());
                str_contains(lname.as_str(), q.as_str())
            };
            if keep {
                main.push(c);
            }
            c = c + 1;
        }
        // Rows.
        let mut out: Vec<SidebarRow> = Vec::new();
        if mem.len() > 0 {
            out.push(SidebarRow::Header(Section::Memory));
        }
        let mut a: usize = 0;
        let ghost base0 = out@;
        while a < mem.len()
            invariant
                a <= mem@.len(),
                out@ == base0 + mem@.take(a as int).map_values(|i: usize| SidebarRow::Button(i, Section::Memory)),
            decreases mem@.len() - a,
        {
            out.push(SidebarRow::Button(mem[a], Section::Memory));
            assert(mem@.take(a + 1) =~= mem@.take(a as int).push(mem@[a as int]));
            assert(out@ =~= base0 + mem@.take(a + 1).map_values(|i: usize| SidebarRow::Button(i, Section::Memory)));
            a = a + 1;
        }
        assert(mem@.take(mem@.len() as int) =~= mem@);
        if fav.len() > 0 {
            out.push(SidebarRow::Header(Section::Favorites));
        }
        let ghost base1 = out@;
        let mut b: usize = 0;
        while b < fav.len()
            invariant
                b <= fav@.len(),
                out@ == base1 + fav@.take(b as int).map_values(|i: usize| SidebarRow::Button(i, Section::Favorites)),
            decreases fav@.len() - b,
        {
            out.push(SidebarRow::Button(fav[b], Section::Favorites));
            assert(fav@.take(b + 1) =~= fav@.take(b as int).push(fav@[b as int]));
            assert(out@ =~= base1 + fav@.take(b + 1).map_values(|i: usize| SidebarRow::Button(i, Section::Favorites)));
            b = b + 1;
        }
        assert(fav@.take(fav@.len() as int) =~= fav@);
        if main.len() > 0 {
            out.push(SidebarRow::Header(Section::Main));
        }
        let ghost base2 = out@;
        let mut d: usize = 0;
        while d < main.len()
            invariant
                d <= main@.len(),
                out@ == base2 + main@.take(d as int).map_values(|i: usize| SidebarRow::Button(i, Section::Main)),
            decreases main@.len() - d,
        {
            out.push(SidebarRow::Button(main[d], Section::Main));
            assert(main@.take(d + 1) =~= main@.take(d as int).push(main@[d as int]));
            assert(out@ =~= base2 + main@.take(d + 1).map_values(|i: usize| SidebarRow::Button(i, Section::Main)));
            d = d + 1;
        }
        assert(main@.take(main@.len() as int) =~= main@);
        assert(out@ =~= rows_of(mem@, fav@, main@));
        out
    }
}

/// The bytes a channel is sorted by: its lower-cased name, UTF-8.
pub open spec fn sort_key(c: Channel) -> Seq<u8> {
    vstd::utf8::encode_utf8(lowercase_of(c.name@))
}

proof fn lemma_channel_insert_pos(t: Seq<Channel>, x: Channel, i: int)
    requires
        0 <= i <= t.len(),
    ensures
        i <= channel_insert_pos(t, x, i) <= t.len(),
        forall|k: int| i <= k < channel_insert_pos(t, x, i) ==> !name_lt(x, #[trigger] t[k]),
        channel_insert_pos(t, x, i) < t.len() ==> name_lt(x, t[channel_insert_pos(t, x, i)]),
    decreases t.len() - i,
{
    if i < t.len() && !name_lt(x, t[i]) {
        lemma_channel_insert_pos(t, x, i + 1);
    }
}

/// No channel of `t` is ordered before an earlier one.
pub open spec fn channels_sorted(t: Seq<Channel>) -> bool {
    forall|i: int, j: int| 0 <= i < j < t.len() ==> !name_lt(#[trigger] t[j], #[trigger] t[i])
}

/// The channel sort orders the channels by lower-cased name and keeps
/// every channel: the result is sorted and a permutation of the input.
#[verifier::spinoff_prover]
pub proof fn law_sort_channels(s: Seq<Channel>)
    ensures
        channels_sorted(sort_channels(s)),
        sort_channels(s).to_multiset() == s.to_multiset(),
    decreases s.len(),
{
    broadcast use vstd::seq_lib::to_multiset_build, vstd::seq_lib::to_multiset_insert;
    if s.len() > 0 {
        let t = sort_channels(s.drop_last());
        let x = s.last();
        law_sort_channels(s.drop_last());
        lemma_channel_insert_pos(t, x, 0);
        let p = channel_insert_pos(t, x, 0);
        let u = t.insert(p, x);
        assert(s.drop_last().push(x) =~= s);
        assert forall|i: int, j: int| 0 <= i < j < u.len() implies !name_lt(#[trigger] u[j], #[trigger] u[i]) by {
            if j < p {
                assert(u[i] == t[i] && u[j] == t[j]);
            } else if j == p {
                assert(u[i] == t[i] && u[j] == x);
                lemma_lex_asym(sort_key(t[i]), sort_key(x));
            } else if i < p {
                assert(u[i] == t[i] && u[j] == t[j - 1]);
            } else if i == p {
                assert(u[i] == x && u[j] == t[j - 1]);
                if j - 1 > p {
                    assert(!name_lt(t[j - 1], t[p]));
                    if name_lt(t[j - 1], x) {
                        lemma_lex_trans(sort_key(t[j - 1]), sort_key(x), sort_key(t[p]));
                    }
                } else {
                    lemma_lex_asym(sort_key(x), sort_key(t[p]));
                }
            } else {
                assert(u[i] == t[i - 1] && u[j] == t[j - 1]);
            }
        }
    }
}

/// The channels whose sort key is `k`.
pub open spec fn key_is(k: Seq<u8>) -> spec_fn(Channel) -> bool {
    |c: Channel| sort_key(c) == k
}

/// The channel sort is stable: channels whose lower-cased names are
/// equal come out in the server's order.
#[verifier::spinoff_prover]
#[verifier::rlimit(40)]
pub proof fn law_sort_channels_stable(s: Seq<Channel>, k: Seq<u8>)
    ensures
        sort_channels(s).filter(key_is(k)) == s.filter(key_is(k)),
    decreases s.len(),
{
    reveal(Seq::filter);
    if s.len() > 0 {
        let pred = key_is(k);
        let t = sort_channels(s.drop_last());
        let x = s.last();
        law_sort_channels_stable(s.drop_last(), k);
        law_sort_channels(s.drop_last());
        lemma_channel_insert_pos(t, x, 0);
        let p = channel_insert_pos(t, x, 0);
        let a = t.subrange(0, p);
        let b = t.subrange(p, t.len() as int);
        assert(t =~= a + b);
        assert(t.insert(p, x) =~= a + seq![x] + b);
        Seq::filter_distributes_over_add(a, b, pred);
        Seq::filter_distributes_over_add(a + seq![x], b, pred);
        Seq::filter_distributes_over_add(a, seq![x], pred);
        assert(seq![x].drop_last() =~= Seq::<Channel>::empty());
        assert(Seq::<Channel>::empty().filter(pred) =~= Seq::<Channel>::empty());
        if sort_key(x) == k {
            assert forall|j: int| 0 <= j < b.len() implies !pred(#[trigger] b[j]) by {
                assert(b[j] == t[p + j]);
                lemma_lex_asym(sort_key(x), sort_key(t[p]));
                if j > 0 && pred(b[j]) {
                    assert(!name_lt(t[p + j], t[p]));
                }
            }
            b.lemma_all_neg_filter_empty(pred);
            assert(b.filter(pred) =~= Seq::<Channel>::empty());
            assert(seq![x].filter(pred) =~= seq![x]);
        } else {
            assert(seq![x].filter(pred) =~= Seq::<Channel>::empty());
        }
        assert(s.drop_last().push(x) =~= s);
    }
}

/// With no search typed, the channel list shows every channel, in
/// order: the main section is exactly the indices `0..len`, each drawn
/// as a channel button after the section's header.
pub proof fn law_empty_search_lists_every_channel(
    channels: Seq<Channel>,
    mem: Seq<usize>,
    fav: Seq<usize>,
)
    requires
        channels.len() <= usize::MAX,
    ensures
        main_rows(channels, search_key(Seq::empty()), channels.len() as int) == Seq::new(
            channels.len(),
            |i: int| i as usize,
        ),
        ({
            let rows = rows_of(mem, fav, main_rows(channels, search_key(Seq::empty()), channels.len() as int));
            let n = channels.len() as int;
            &&& rows.len() >= n
            &&& forall|i: int| 0 <= i < n ==> #[trigger] rows[rows.len() - n + i] == SidebarRow::Button(
                i as usize,
                Section::Main,
            )
            &&& n > 0 ==> rows[rows.len() - n - 1] == SidebarRow::Header(Section::Main)
        }),
{
    lemma_main_rows_all(channels, channels.len() as int);
    let main = main_rows(channels, search_key(Seq::empty()), channels.len() as int);
    let rows = rows_of(mem, fav, main);
    let n = channels.len() as int;
    let m = if mem.len() > 0 { seq![SidebarRow::Header(Section::Memory)] } else { Seq::empty() };
    let f = if fav.len() > 0 { seq![SidebarRow::Header(Section::Favorites)] } else { Seq::empty() };
    let t = if main.len() > 0 { seq![SidebarRow::Header(Section::Main)] } else { Seq::empty() };
    let pre = m + mem.map_values(|i: usize| SidebarRow::Button(i, Section::Memory)) + f + fav.map_values(
        |i: usize| SidebarRow::Button(i, Section::Favorites),
    );
    let tail = main.map_values(|i: usize| SidebarRow::Button(i, Section::Main));
    assert(rows =~= pre + t + tail);
    assert forall|i: int| 0 <= i < n implies #[trigger] rows[rows.len() - n + i] == SidebarRow::Button(
        i as usize,
        Section::Main,
    ) by {
        assert(rows[rows.len() - n + i] == tail[i]);
    }
    if n > 0 {
        assert(rows[rows.len() - n - 1] == t[0]);
    }
}

proof fn lemma_main_rows_all(channels: Seq<Channel>, k: int)
    requires
        0 <= k <= channels.len(),
        channels.len() <= usize::MAX,
    ensures
        main_rows(channels, search_key(Seq::empty()), k) == Seq::new(k as nat, |i: int| i as usize),
    decreases k,
{
    if k > 0 {
        lemma_main_rows_all(channels, k - 1);
        assert(main_rows(channels, search_key(Seq::empty()), k) =~= Seq::new(k as nat, |i: int| i as usize));
    } else {
        assert(main_rows(channels, search_key(Seq::empty()), k) =~= Seq::new(k as nat, |i: int| i as usize));
    }
}

} // verus!
