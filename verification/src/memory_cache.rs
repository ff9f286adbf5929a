//! Memory cache for the last N visited channels.
//!
//! When the user switches away from a channel, its backup player is
//! parked (paused, off-screen, demuxer cache still warm) and pushed here.
//! Clicking a memorized channel later takes its backup back out for an
//! instant zap. The cache is an LRU list, most recent first, holding at
//! most `capacity` channels and never two entries for the same channel.
//! `B` is the parked player; dropping an evicted entry releases it.

use vstd::prelude::*;
use std::collections::VecDeque;
use crate::text::str_eq;

verus! {

/// One channel parked in the memory cache, with its backup player.
pub struct MemorizedChannel<B> {
    pub channel_id: String,
    pub backup: B,
}

/// LRU cache of recently visited channels (most-recent at the front).
pub struct MemoryCache<B> {
    entries: VecDeque<MemorizedChannel<B>>,
    capacity: usize,
}

/// The channel ids of a sequence of entries, in order.
pub open spec fn ids_of<B>(s: Seq<MemorizedChannel<B>>) -> Seq<Seq<char>> {
    s.map_values(|e: MemorizedChannel<B>| e.channel_id@)
}

/// No channel id occurs twice in `s`.
pub open spec fn unique_ids<B>(s: Seq<MemorizedChannel<B>>) -> bool {
    forall|i: int, j: int|
        0 <= i < s.len() && 0 <= j < s.len() && i != j ==> #[trigger] s[i].channel_id@
            != #[trigger] s[j].channel_id@
}

/// `s` without the entries whose channel id is `id`, order kept.
pub open spec fn without_id<B>(s: Seq<MemorizedChannel<B>>, id: Seq<char>) -> Seq<
    MemorizedChannel<B>,
>
    decreases s.len(),
{
    if s.len() == 0 {
        s
    } else if s.last().channel_id@ == id {
        without_id(s.drop_last(), id)
    } else {
        without_id(s.drop_last(), id).push(s.last())
    }
}

/// Index of the first entry of `s` for channel `id`.
pub open spec fn index_of_id<B>(s: Seq<MemorizedChannel<B>>, id: Seq<char>) -> Option<int>
    decreases s.len(),
{
    if s.len() == 0 {
        None
    } else if s[0].channel_id@ == id {
        Some(0)
    } else {
        match index_of_id(s.drop_first(), id) {
            Some(i) => Some(i + 1),
            None => None,
        }
    }
}

/// The first `cap` entries of `s` (all of them if there are fewer).
pub open spec fn truncate<T>(s: Seq<T>, cap: nat) -> Seq<T> {
    if s.len() > cap {
        s.subrange(0, cap as int)
    } else {
        s
    }
}

/// The entries after pushing `e` onto `s` in a cache of capacity `cap`:
/// `e` first, then the other channels in their order, the oldest ones
/// dropped beyond `cap`.
pub open spec fn pushed<B>(s: Seq<MemorizedChannel<B>>, e: MemorizedChannel<B>, cap: nat) -> Seq<
    MemorizedChannel<B>,
> {
    truncate(seq![e] + without_id(s, e.channel_id@), cap)
}

impl<B> MemoryCache<B> {
    /// The cached entries, most recent first.
    pub closed spec fn entries_view(&self) -> Seq<MemorizedChannel<B>> {
        self.entries@
    }

    /// The capacity the cache was made or last set with.
    pub closed spec fn capacity_view(&self) -> nat {
        self.capacity as nat
    }

    /// The cache's invariant: at most `capacity` entries, no channel twice.
    pub open spec fn wf(&self) -> bool {
        &&& self.entries_view().len() <= self.capacity_view()
        &&& unique_ids(self.entries_view())
    }

    pub fn new(capacity: usize) -> (r: Self)
        ensures
            r.wf(),
            r.entries_view() == Seq::<MemorizedChannel<B>>::empty(),
            r.capacity_view() == capacity,
    {
        MemoryCache { entries: VecDeque::new(), capacity }
    }

    fn position_of(&self, channel_id: &str) -> (r: Option<usize>)
        requires
            unique_ids(self.entries@),
        ensures
            r matches Some(p) ==> index_of_id(self.entries@, channel_id@) == Some(p as int),
            r is None ==> index_of_id(self.entries@, channel_id@) is None,
            r matches Some(p) ==> p < self.entries@.len() && self.entries@[p as int].channel_id@
                == channel_id@,
            r is None ==> forall|k: int|
                0 <= k < self.entries@.len() ==> #[trigger] self.entries@[k].channel_id@
                    != channel_id@,
    {
        let n = self.entries.len();
        let mut i: usize = 0;
        while i < n
            invariant
                n == self.entries@.len(),
                i <= n,
                forall|k: int| 0 <= k < i ==> #[trigger] self.entries@[k].channel_id@ != channel_id@,
            decreases n - i,
        {
            if str_eq(self.entries[i].channel_id.as_str(), channel_id) {
                proof {
                    lemma_index_of_first(self.entries@, channel_id@, i as int);
                }
                return Some(i);
            }
            i = i + 1;
        }
        proof {
            lemma_index_of_absent(self.entries@, channel_id@);
        }
        None
    }

    /// Push a (frozen) channel to the front. An older entry for the same
    /// channel is dropped first; past capacity the oldest entry is
    /// dropped (its player is released).
    pub fn push(&mut self, entry: MemorizedChannel<B>)
        requires
            old(self).wf(),
        ensures
            final(self).wf(),
            final(self).capacity_view() == old(self).capacity_view(),
            final(self).entries_view() == pushed(
                old(self).entries_view(),
                entry,
                old(self).capacity_view(),
            ),
    {
        let ghost id = entry.channel_id@;
        let ghost w = without_id(self.entries@, id);
        match self.position_of(entry.channel_id.as_str()) {
            Some(p) => {
                proof {
                    lemma_without_unique_at(self.entries@, id, p as int);
                }
                let _ = self.entries.remove(p);
            },
            None => {
                proof {
                    lemma_without_absent(self.entries@, id);
                }
            },
        }
        assert(self.entries@ == w);
        proof {
            lemma_without_props(old(self).entries@, id);
        }
        self.entries.push_front(entry);
        let ghost full = self.entries@;
        assert(full == seq![entry] + w);
        while self.entries.len() > self.capacity
            invariant
                self.entries@ == full.subrange(0, self.entries@.len() as int),
                self.entries@.len() <= full.len(),
                self.entries@.len() >= self.capacity || self.entries@.len() == full.len(),
                self.capacity == old(self).capacity,
            decreases self.entries@.len(),
        {
            let _ = self.entries.pop_back();
        }
        proof {
            assert(self.entries@ =~= pushed(old(self).entries@, entry, self.capacity as nat));
            lemma_unique_front(w, entry);
            lemma_unique_prefix(full, self.entries@.len() as int);
        }
    }

    /// Remove and return the entry for `channel_id` if present. The
    /// caller is now responsible for its player.
    pub fn take(&mut self, channel_id: &str) -> (r: Option<MemorizedChannel<B>>)
        requires
            old(self).wf(),
        ensures
            final(self).wf(),
            final(self).capacity_view() == old(self).capacity_view(),
            final(self).entries_view() == without_id(old(self).entries_view(), channel_id@),
            r == (match index_of_id(old(self).entries_view(), channel_id@) {
                Some(i) => Some(old(self).entries_view()[i]),
                None => None,
            }),
    {
        match self.position_of(channel_id) {
            Some(p) => {
                proof {
                    lemma_without_unique_at(self.entries@, channel_id@, p as int);
                    lemma_without_props(self.entries@, channel_id@);
                }
                self.entries.remove(p)
            },
            None => {
                proof {
                    lemma_without_absent(self.entries@, channel_id@);
                }
                None
            },
        }
    }

    /// True iff the given channel is currently in the cache.
    pub fn contains(&self, channel_id: &str) -> (r: bool)
        requires
            self.wf(),
        ensures
            r == ids_of(self.entries_view()).contains(channel_id@),
    {
        let pos = self.position_of(channel_id);
        let r = pos.is_some();
        proof {
            if r {
                let p = pos->0 as int;
                assert(ids_of(self.entries@)[p] == channel_id@);
            } else {
                if ids_of(self.entries@).contains(channel_id@) {
                    let k = choose|k: int|
                        0 <= k < ids_of(self.entries@).len() && ids_of(self.entries@)[k]
                            == channel_id@;
                    assert(self.entries@[k].channel_id@ == channel_id@);
                }
            }
        }
        r
    }

    /// Channel IDs in LRU order (most-recent first).
    pub fn channel_ids(&self) -> (r: Vec<String>)
        ensures
            r@.len() == self.entries_view().len(),
            forall|i: int| 0 <= i < r@.len() ==> #[trigger] r@[i]@ == self.entries_view()[i].channel_id@,
    {
        let n = self.entries.len();
        let mut out: Vec<String> = Vec::new();
        let mut i: usize = 0;
        while i < n
            invariant
                n == self.entries@.len(),
                i <= n,
                out@.len() == i,
                forall|k: int| 0 <= k < i ==> #[trigger] out@[k]@ == self.entries@[k].channel_id@,
            decreases n - i,
        {
            let id = self.entries[i].channel_id.clone();
            out.push(id);
            i = i + 1;
        }
        out
    }

    pub fn capacity(&self) -> (r: usize)
        ensures
            r == self.capacity_view(),
    {
        self.capacity
    }

    pub fn len(&self) -> (r: usize)
        ensures
            r == self.entries_view().len(),
    {
        self.entries.len()
    }

    /// Update the capacity. If the new capacity is smaller than the
    /// current entry count, the oldest entries are dropped.
    pub fn set_capacity(&mut self, capacity: usize)
        requires
            old(self).wf(),
        ensures
            final(self).wf(),
            final(self).capacity_view() == capacity,
            final(self).entries_view() == truncate(old(self).entries_view(), capacity as nat),
    {
        self.capacity = capacity;
        let ghost full = self.entries@;
        while self.entries.len() > self.capacity
            invariant
                self.entries@ == full.subrange(0, self.entries@.len() as int),
                self.entries@.len() <= full.len(),
                self.entries@.len() >= self.capacity || self.entries@.len() == full.len(),
                self.capacity == capacity,
            decreases self.entries@.len(),
        {
            let _ = self.entries.pop_back();
        }
        proof {
            assert(self.entries@ =~= truncate(full, capacity as nat));
            lemma_unique_prefix(full, self.entries@.len() as int);
        }
    }

    /// Drop everything in the cache.
    pub fn clear(&mut self)
        requires
            old(self).wf(),
        ensures
            final(self).wf(),
            final(self).capacity_view() == old(self).capacity_view(),
            final(self).entries_view() == Seq::<MemorizedChannel<B>>::empty(),
    {
        self.entries.clear();
    }
}

proof fn lemma_index_of_first<B>(s: Seq<MemorizedChannel<B>>, id: Seq<char>, i: int)
    requires
        0 <= i < s.len(),
        s[i].channel_id@ == id,
        forall|k: int| 0 <= k < i ==> #[trigger] s[k].channel_id@ != id,
    ensures
        index_of_id(s, id) == Some(i),
    decreases i,
{
    if i > 0 {
        assert(s[0].channel_id@ != id);
        lemma_index_of_first(s.drop_first(), id, i - 1);
    }
}

proof fn lemma_index_of_absent<B>(s: Seq<MemorizedChannel<B>>, id: Seq<char>)
    requires
        forall|k: int| 0 <= k < s.len() ==> #[trigger] s[k].channel_id@ != id,
    ensures
        index_of_id(s, id) is None,
    decreases s.len(),
{
    if s.len() > 0 {
        assert(s[0].channel_id@ != id);
        lemma_index_of_absent(s.drop_first(), id);
    }
}

proof fn lemma_without_absent<B>(s: Seq<MemorizedChannel<B>>, id: Seq<char>)
    requires
        forall|k: int| 0 <= k < s.len() ==> #[trigger] s[k].channel_id@ != id,
    ensures
        without_id(s, id) == s,
    decreases s.len(),
{
    if s.len() > 0 {
        assert(s.last().channel_id@ != id);
        lemma_without_absent(s.drop_last(), id);
        assert(s.drop_last().push(s.last()) =~= s);
    }
}

proof fn lemma_without_unique_at<B>(s: Seq<MemorizedChannel<B>>, id: Seq<char>, p: int)
    requires
        0 <= p < s.len(),
        s[p].channel_id@ == id,
        unique_ids(s),
    ensures
        without_id(s, id) == s.remove(p),
    decreases s.len(),
{
    if p == s.len() - 1 {
        assert forall|k: int| 0 <= k < s.drop_last().len() implies #[trigger] s.drop_last()[k].channel_id@
            != id by {
            assert(s[k].channel_id@ != s[p].channel_id@);
        }
        lemma_without_absent(s.drop_last(), id);
        assert(s.drop_last() =~= s.remove(p));
    } else {
        assert(s.last().channel_id@ != id) by {
            assert(s[s.len() - 1].channel_id@ != s[p].channel_id@);
        }
        let t = s.drop_last();
        assert(unique_ids(t)) by {
            assert forall|i: int, j: int|
                0 <= i < t.len() && 0 <= j < t.len() && i != j implies #[trigger] t[i].channel_id@
                != #[trigger] t[j].channel_id@ by {
                assert(t[i] == s[i] && t[j] == s[j]);
            }
        }
        lemma_without_unique_at(t, id, p);
        assert(t.remove(p).push(s.last()) =~= s.remove(p));
    }
}

/// Everything `without_id` keeps comes from `s`, in order, and none of
/// it is for channel `id`.
proof fn lemma_without_props<B>(s: Seq<MemorizedChannel<B>>, id: Seq<char>)
    requires
        unique_ids(s),
    ensures
        unique_ids(without_id(s, id)),
        forall|k: int|
            0 <= k < without_id(s, id).len() ==> #[trigger] without_id(s, id)[k].channel_id@ != id,
        forall|k: int|
            0 <= k < without_id(s, id).len() ==> s.contains(#[trigger] without_id(s, id)[k]),
    decreases s.len(),
{
    if s.len() > 0 {
        let t = s.drop_last();
        assert(unique_ids(t)) by {
            assert forall|i: int, j: int|
                0 <= i < t.len() && 0 <= j < t.len() && i != j implies #[trigger] t[i].channel_id@
                != #[trigger] t[j].channel_id@ by {
                assert(t[i] == s[i] && t[j] == s[j]);
            }
        }
        lemma_without_props(t, id);
        let wt = without_id(t, id);
        assert forall|k: int| 0 <= k < wt.len() implies s.contains(#[trigger] wt[k]) by {
            let m = choose|m: int| 0 <= m < t.len() && t[m] == wt[k];
            assert(s[m] == wt[k]);
        }
        if s.last().channel_id@ != id {
            let w = wt.push(s.last());
            assert(s.contains(s.last())) by {
                assert(s[s.len() - 1] == s.last());
            }
            assert forall|k: int| 0 <= k < wt.len() implies #[trigger] wt[k].channel_id@
                != s.last().channel_id@ by {
                let m = choose|m: int| 0 <= m < t.len() && t[m] == wt[k];
                assert(s[m] == wt[k]);
                assert(s[m].channel_id@ != s[s.len() - 1].channel_id@);
            }
            assert forall|i: int, j: int|
                0 <= i < w.len() && 0 <= j < w.len() && i != j implies #[trigger] w[i].channel_id@
                != #[trigger] w[j].channel_id@ by {
                if i < wt.len() && j < wt.len() {
                    assert(w[i] == wt[i] && w[j] == wt[j]);
                } else if i < wt.len() {
                    assert(w[i] == wt[i]);
                } else if j < wt.len() {
                    assert(w[j] == wt[j]);
                }
            }
            assert forall|k: int| 0 <= k < w.len() implies s.contains(#[trigger] w[k]) by {
                if k < wt.len() {
                    assert(w[k] == wt[k]);
                }
            }
        }
    }
}

proof fn lemma_unique_front<B>(w: Seq<MemorizedChannel<B>>, e: MemorizedChannel<B>)
    requires
        unique_ids(w),
        forall|k: int| 0 <= k < w.len() ==> #[trigger] w[k].channel_id@ != e.channel_id@,
    ensures
        unique_ids(seq![e] + w),
{
    let f = seq![e] + w;
    assert forall|i: int, j: int|
        0 <= i < f.len() && 0 <= j < f.len() && i != j implies #[trigger] f[i].channel_id@
        != #[trigger] f[j].channel_id@ by {
        if i > 0 && j > 0 {
            assert(f[i] == w[i - 1] && f[j] == w[j - 1]);
        } else if i > 0 {
            assert(f[i] == w[i - 1]);
        } else if j > 0 {
            assert(f[j] == w[j - 1]);
        }
    }
}

proof fn lemma_unique_prefix<B>(s: Seq<MemorizedChannel<B>>, n: int)
    requires
        unique_ids(s),
        0 <= n <= s.len(),
    ensures
        unique_ids(s.subrange(0, n)),
{
    let t = s.subrange(0, n);
    assert forall|i: int, j: int|
        0 <= i < t.len() && 0 <= j < t.len() && i != j implies #[trigger] t[i].channel_id@
        != #[trigger] t[j].channel_id@ by {
        assert(t[i] == s[i] && t[j] == s[j]);
    }
}

/// With `e` pushed in front of entries that hold no other entry for its
/// channel, removing that channel gives back the rest.
proof fn lemma_without_front<B>(e: MemorizedChannel<B>, x: Seq<MemorizedChannel<B>>)
    requires
        unique_ids(x),
        forall|k: int| 0 <= k < x.len() ==> #[trigger] x[k].channel_id@ != e.channel_id@,
    ensures
        without_id(seq![e] + x, e.channel_id@) == x,
        index_of_id(seq![e] + x, e.channel_id@) == Some(0int),
{
    lemma_unique_front(x, e);
    lemma_without_unique_at(seq![e] + x, e.channel_id@, 0);
    assert((seq![e] + x).remove(0) =~= x);
}

proof fn lemma_pushed_shape<B>(s: Seq<MemorizedChannel<B>>, e: MemorizedChannel<B>, cap: nat)
    requires
        unique_ids(s),
        cap >= 1,
    ensures
        pushed(s, e, cap) == seq![e] + truncate(without_id(s, e.channel_id@), (cap - 1) as nat),
        unique_ids(truncate(without_id(s, e.channel_id@), (cap - 1) as nat)),
        forall|k: int|
            0 <= k < truncate(without_id(s, e.channel_id@), (cap - 1) as nat).len()
                ==> #[trigger] truncate(without_id(s, e.channel_id@), (cap - 1) as nat)[k].channel_id@
                != e.channel_id@,
{
    let w = without_id(s, e.channel_id@);
    lemma_without_props(s, e.channel_id@);
    assert(pushed(s, e, cap) =~= seq![e] + truncate(w, (cap - 1) as nat));
    if w.len() > cap - 1 {
        lemma_unique_prefix(w, cap - 1);
    }
}

/// Law: a channel just pushed is found again at the front, and taking
/// it back leaves the other cached channels, in order, as they were
/// before the push (less the oldest one if the push evicted it).
pub proof fn law_push_then_take<B>(s: Seq<MemorizedChannel<B>>, e: MemorizedChannel<B>, cap: nat)
    requires
        unique_ids(s),
        cap >= 1,
    ensures
        index_of_id(pushed(s, e, cap), e.channel_id@) == Some(0int),
        pushed(s, e, cap)[0] == e,
        without_id(pushed(s, e, cap), e.channel_id@) == truncate(
            without_id(s, e.channel_id@),
            (cap - 1) as nat,
        ),
{
    lemma_pushed_shape(s, e, cap);
    lemma_without_front(e, truncate(without_id(s, e.channel_id@), (cap - 1) as nat));
}

/// Law: pushing a channel that is already cached replaces its entry —
/// the cache then holds exactly what a single push of the new entry
/// would give.
pub proof fn law_repush_replaces<B>(
    s: Seq<MemorizedChannel<B>>,
    e1: MemorizedChannel<B>,
    e2: MemorizedChannel<B>,
    cap: nat,
)
    requires
        unique_ids(s),
        e1.channel_id@ == e2.channel_id@,
    ensures
        pushed(pushed(s, e1, cap), e2, cap) == pushed(s, e2, cap),
{
    if cap == 0 {
        assert(pushed(s, e1, cap) =~= Seq::<MemorizedChannel<B>>::empty());
        assert(pushed(pushed(s, e1, cap), e2, cap) =~= Seq::<MemorizedChannel<B>>::empty());
        assert(pushed(s, e2, cap) =~= Seq::<MemorizedChannel<B>>::empty());
    } else {
        let id = e1.channel_id@;
        let w = without_id(s, id);
        let tw = truncate(w, (cap - 1) as nat);
        lemma_pushed_shape(s, e1, cap);
        lemma_without_front(e1, tw);
        assert(pushed(pushed(s, e1, cap), e2, cap) =~= truncate(seq![e2] + tw, cap));
        assert(truncate(seq![e2] + tw, cap) =~= truncate(seq![e2] + w, cap));
    }
}

/// Law: every cache state the operations produce keeps the invariant —
/// the entries that a push leaves never exceed the capacity and never
/// name a channel twice.
pub proof fn law_pushed_wf<B>(s: Seq<MemorizedChannel<B>>, e: MemorizedChannel<B>, cap: nat)
    requires
        unique_ids(s),
    ensures
        pushed(s, e, cap).len() <= cap,
        unique_ids(pushed(s, e, cap)),
{
    if cap >= 1 {
        lemma_pushed_shape(s, e, cap);
        let tw = truncate(without_id(s, e.channel_id@), (cap - 1) as nat);
        lemma_unique_front(tw, e);
    } else {
        assert(pushed(s, e, cap) =~= Seq::<MemorizedChannel<B>>::empty());
    }
}

} // verus!
