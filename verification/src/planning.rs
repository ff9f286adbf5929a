//! The TV-guide planning view: which video plays when on a channel, as a
//! list of time blocks for a window of time, plus the calendar helpers of
//! the weekly grid. Local-time conversions (time zone) are done by the
//! caller, which hands over the broken-down fields.

use vstd::prelude::*;
use crate::text::{append_decimal2, decimal2, str_eq, string_of};

verus! {

pub const HOURS_VISIBLE: u32 = 24;

/// One video of a channel's playlist, with its duration in whole seconds.
pub struct ScheduledVideo {
    pub video_id: String,
    pub title: String,
    pub duration: i64,
}

/// A channel's playlist: the videos, their total duration in whole
/// seconds, and the Unix time in milliseconds at which the cycle started.
pub struct PlaylistInfo {
    pub videos: Vec<ScheduledVideo>,
    pub total_duration: i64,
    pub tv_started_at: i64,
}

/// One scheduled slot: `[start_ms, end_ms)` of a video.
pub struct Block {
    pub start_ms: i64,
    pub end_ms: i64,
    pub title: String,
    pub video_id: String,
}

/// A channel of the dropdown: its id and display name.
pub struct ServerChannel {
    pub id: String,
    pub name: String,
}

/// `a / b` truncating toward zero, for `b > 0` (Rust's `/` on `i64`).
pub open spec fn tdiv(a: int, b: int) -> int {
    if a >= 0 {
        a / b
    } else {
        -((-a) / b)
    }
}

/// `(index, start)` of the video playing `elapsed` seconds into the
/// cycle, scanning from video `idx` which starts at `acc`: the first
/// video whose end lies after `elapsed`, or `(len, total)` past the end.
pub open spec fn locate(d: Seq<ScheduledVideo>, elapsed: int, idx: int, acc: int) -> (int, int)
    decreases d.len() - idx,
{
    if 0 <= idx < d.len() && acc + d[idx].duration <= elapsed {
        locate(d, elapsed, idx + 1, acc + d[idx].duration)
    } else {
        (idx, acc)
    }
}

/// Sum of the durations of `d`.
pub open spec fn duration_sum(d: Seq<ScheduledVideo>) -> int
    decreases d.len(),
{
    if d.len() == 0 {
        0
    } else {
        duration_sum(d.drop_last()) + d.last().duration
    }
}

/// The bounds within which the schedule arithmetic stays exact: Unix
/// times in milliseconds within ±2^52 (what an `f64` holds exactly) and
/// durations within 2^40 seconds.
pub open spec fn schedule_in_range(pl: PlaylistInfo, from_ms: int, to_ms: int) -> bool {
    &&& -0x10_0000_0000_0000 <= pl.tv_started_at <= 0x10_0000_0000_0000
    &&& -0x10_0000_0000_0000 <= from_ms <= 0x10_0000_0000_0000
    &&& -0x10_0000_0000_0000 <= to_ms <= 0x10_0000_0000_0000
    &&& pl.total_duration <= 0x100_0000_0000
    &&& forall|i: int|
        0 <= i < pl.videos@.len() ==> 0 <= #[trigger] pl.videos@[i].duration <= 0x100_0000_0000
}

/// Seconds since the cycle start at `ms`, truncated toward zero.
pub open spec fn secs_since(tv: int, ms: int) -> int {
    tdiv(ms - tv, 1000)
}

/// Length in seconds of block `k` (before it is cut at the window's end):
/// the first block only has what remains of the video playing at `from`.
pub open spec fn block_length(pl: PlaylistInfo, from_ms: int, k: int) -> int {
    let d = pl.videos@;
    let n = d.len() as int;
    let from_sec = secs_since(pl.tv_started_at as int, from_ms);
    let elapsed = from_sec % (pl.total_duration as int);
    let loc = locate(d, elapsed, 0, 0);
    let v = d[(loc.0 + k) % n];
    if k == 0 {
        v.duration - (elapsed - loc.1)
    } else {
        v.duration as int
    }
}

/// The video shown by block `k`.
pub open spec fn block_video(pl: PlaylistInfo, from_ms: int, k: int) -> ScheduledVideo {
    let d = pl.videos@;
    let n = d.len() as int;
    let from_sec = secs_since(pl.tv_started_at as int, from_ms);
    let elapsed = from_sec % (pl.total_duration as int);
    d[(locate(d, elapsed, 0, 0).0 + k) % n]
}

/// `blocks` is the schedule of `pl` between `from_ms` and `to_ms`: the
/// cycle position at `from` (in whole seconds since the cycle started)
/// gives the first video and how much of it is left; from there the
/// videos follow in playlist order, wrapping around, each block starting
/// where the previous one ended and cut at `to`; blocks are produced
/// while they start before `to`, so the last one ends exactly at `to`.
pub open spec fn is_schedule(pl: PlaylistInfo, from_ms: int, to_ms: int, blocks: Seq<Block>) -> bool {
    let tv = pl.tv_started_at as int;
    let from_sec = secs_since(tv, from_ms);
    let to_sec = secs_since(tv, to_ms);
    if pl.videos@.len() == 0 || pl.total_duration <= 0 || from_sec >= to_sec {
        blocks.len() == 0
    } else {
        &&& blocks.len() > 0
        &&& blocks[0].start_ms == tv + 1000 * from_sec
        &&& blocks.last().end_ms == tv + 1000 * to_sec
        &&& forall|k: int|
            0 <= k < blocks.len() ==> {
                let s = (#[trigger] blocks[k].start_ms - tv) / 1000;
                let e = s + block_length(pl, from_ms, k);
                let v = block_video(pl, from_ms, k);
                &&& blocks[k].start_ms == tv + 1000 * s
                &&& s < to_sec
                &&& blocks[k].end_ms == tv + 1000 * (if e < to_sec {
                    e
                } else {
                    to_sec
                })
                &&& blocks[k].title == v.title
                &&& blocks[k].video_id == v.video_id
            }
        &&& forall|k: int| 0 <= k < blocks.len() - 1 ==> #[trigger] blocks[k + 1].start_ms == blocks[k].end_ms
    }
}

/// Number of consecutive zero-duration videos starting at index `i`,
/// looking at no more than `k` of them (wrapping around).
pub open spec fn zero_run(d: Seq<ScheduledVideo>, i: int, k: nat) -> nat
    decreases k,
{
    if k == 0 {
        0
    } else if d[i % (d.len() as int)].duration == 0 {
        1 + zero_run(d, i + 1, (k - 1) as nat)
    } else {
        0
    }
}

proof fn lemma_zero_run_bound(d: Seq<ScheduledVideo>, i: int, k: nat)
    ensures
        zero_run(d, i, k) <= k,
    decreases k,
{
    if k > 0 && d[i % (d.len() as int)].duration == 0 {
        lemma_zero_run_bound(d, i + 1, (k - 1) as nat);
    }
}

proof fn lemma_zero_run_stable(d: Seq<ScheduledVideo>, i: int, k: nat)
    requires
        zero_run(d, i, k) < k,
    ensures
        zero_run(d, i, k + 1) == zero_run(d, i, k),
    decreases k,
{
    if d[i % (d.len() as int)].duration == 0 {
        lemma_zero_run_stable(d, i + 1, (k - 1) as nat);
    }
}

proof fn lemma_zero_run_full(d: Seq<ScheduledVideo>, i: int, k: nat, m: int)
    requires
        zero_run(d, i, k) == k,
        0 <= m < k,
        d.len() > 0,
    ensures
        d[(i + m) % (d.len() as int)].duration == 0,
    decreases k,
{
    lemma_zero_run_bound(d, i + 1, (k - 1) as nat);
    if m > 0 {
        lemma_zero_run_full(d, i + 1, (k - 1) as nat, m - 1);
        assert(i + 1 + (m - 1) == i + m);
    }
}

proof fn lemma_zero_run_short(d: Seq<ScheduledVideo>, i: int, j: int)
    requires
        0 <= i < d.len(),
        0 <= j < d.len(),
        d[j].duration != 0,
    ensures
        zero_run(d, i, d.len()) < d.len(),
{
    let n = d.len() as int;
    lemma_zero_run_bound(d, i, d.len());
    if zero_run(d, i, d.len()) == d.len() {
        let m = if j >= i {
            j - i
        } else {
            j - i + n
        };
        lemma_zero_run_full(d, i, d.len(), m);
        assert((i + m) % n == j) by {
            vstd::arithmetic::div_mod::lemma_small_mod(j as nat, n as nat);
            if j >= i {
                assert(i + m == j);
            } else {
                assert(i + m == n + j);
                vstd::arithmetic::div_mod::lemma_mod_add_multiples_vanish(j, n);
            }
        }
    }
}

proof fn lemma_locate(d: Seq<ScheduledVideo>, elapsed: int, idx: int, acc: int)
    requires
        0 <= idx <= d.len(),
        acc <= elapsed,
    ensures
        idx <= locate(d, elapsed, idx, acc).0 <= d.len(),
        locate(d, elapsed, idx, acc).1 <= elapsed,
        locate(d, elapsed, idx, acc).0 < d.len() ==> elapsed < locate(d, elapsed, idx, acc).1
            + d[locate(d, elapsed, idx, acc).0].duration,
    decreases d.len() - idx,
{
    if 0 <= idx < d.len() && acc + d[idx].duration <= elapsed {
        lemma_locate(d, elapsed, idx + 1, acc + d[idx].duration);
    }
}

proof fn lemma_euclid_mod(x: int, t: int)
    requires
        t > 0,
    ensures
        (if x >= 0 {
            x % t
        } else if (-x) % t == 0 {
            0
        } else {
            t - (-x) % t
        }) == x % t,
{
    if x < 0 {
        let r = (-x) % t;
        let q = (-x) / t;
        vstd::arithmetic::div_mod::lemma_fundamental_div_mod(-x, t);
        assert(-x == t * q + r);
        if r == 0 {
            assert(x == t * (-q) + 0) by (nonlinear_arith)
                requires
                    -x == t * q + r,
                    r == 0,
            ;
            vstd::arithmetic::div_mod::lemma_mod_multiples_vanish(-q, 0, t);
            vstd::arithmetic::div_mod::lemma_small_mod(0, t as nat);
        } else {
            assert(x == t * (-q - 1) + (t - r)) by (nonlinear_arith)
                requires
                    -x == t * q + r,
            ;
            vstd::arithmetic::div_mod::lemma_mod_multiples_vanish(-q - 1, t - r, t);
            vstd::arithmetic::div_mod::lemma_small_mod((t - r) as nat, t as nat);
        }
    }
}

fn tdiv_1000(a: i64) -> (r: i64)
    requires
        a > i64::MIN,
    ensures
        r == tdiv(a as int, 1000),
{
    if a >= 0 {
        a / 1000
    } else {
        -((-a) / 1000)
    }
}

/// The schedule of `pl` between `from_ms` and `to_ms` (see `is_schedule`).
pub fn schedule_between(pl: &PlaylistInfo, from_ms: i64, to_ms: i64) -> (out: Vec<Block>)
    requires
        schedule_in_range(*pl, from_ms as int, to_ms as int),
        pl.videos@.len() > 0 && pl.total_duration > 0 ==> duration_sum(pl.videos@) > 0,
    ensures
        is_schedule(*pl, from_ms as int, to_ms as int, out@),
{
    let n = pl.videos.len();
    if n == 0 || pl.total_duration <= 0 {
        return Vec::new();
    }
    let ghost d = pl.videos@;
    proof {
        lemma_some_positive(d);
    }
    let ghost jpos = choose|j: int| 0 <= j < d.len() && d[j].duration != 0;
    let tv = pl.tv_started_at;
    let total = pl.total_duration;
    let from_sec = tdiv_1000(from_ms - tv);
    let to_sec = tdiv_1000(to_ms - tv);
    let elapsed: i64 = if from_sec >= 0 {
        from_sec % total
    } else {
        let r = (-from_sec) % total;
        if r == 0 {
            0
        } else {
            total - r
        }
    };
    proof {
        lemma_euclid_mod(from_sec as int, total as int);
    }
    let mut acc: i64 = 0;
    let mut idx: usize = 0;
    while idx < n && acc + pl.videos[idx].duration <= elapsed
        invariant
            n == d.len(),
            d == pl.videos@,
            schedule_in_range(*pl, from_ms as int, to_ms as int),
            0 <= elapsed < total,
            total <= 0x100_0000_0000,
            idx <= n,
            0 <= acc <= elapsed,
            locate(d, elapsed as int, 0, 0) == locate(d, elapsed as int, idx as int, acc as int),
        decreases n - idx,
    {
        acc = acc + pl.videos[idx].duration;
        idx = idx + 1;
    }
    proof {
        lemma_locate(d, elapsed as int, idx as int, acc as int);
    }
    let ghost idx0 = idx as int;
    let inner_offset = elapsed - acc;
    let mut out: Vec<Block> = Vec::new();
    let mut cur = from_sec;
    let mut first = true;
    let mut pos: usize = if idx == n {
        0
    } else {
        idx
    };
    proof {
        assert(pos as int == idx0 % (n as int)) by {
            if idx0 == n as int {
                vstd::arithmetic::div_mod::lemma_mod_self_0(n as int);
            } else {
                vstd::arithmetic::div_mod::lemma_small_mod(idx0 as nat, n as nat);
            }
        }
    }
    while cur < to_sec
        invariant
            n == d.len(),
            n > 0,
            d == pl.videos@,
            0 <= jpos < n,
            d[jpos].duration != 0,
            schedule_in_range(*pl, from_ms as int, to_ms as int),
            tv == pl.tv_started_at,
            from_sec == secs_since(tv as int, from_ms as int),
            to_sec == secs_since(tv as int, to_ms as int),
            elapsed as int == (from_sec as int) % (pl.total_duration as int),
            (idx0, acc as int) == locate(d, elapsed as int, 0, 0),
            0 <= inner_offset <= elapsed < 0x100_0000_0000,
            inner_offset == elapsed - acc,
            pos < n,
            pos as int == (idx0 + out@.len()) % (n as int),
            first == (out@.len() == 0),
            first ==> cur == from_sec,
            from_sec - 0x100_0000_0000 <= cur,
            cur <= to_sec || (first && cur == from_sec),
            !first ==> cur <= to_sec,
            out@.len() > 0 ==> out@[0].start_ms == tv + 1000 * from_sec,
            out@.len() > 0 ==> out@.last().end_ms == tv + 1000 * cur,
            forall|k: int|
                0 <= k < out@.len() ==> {
                    let s = (#[trigger] out@[k].start_ms - tv) / 1000;
                    let e = s + block_length(*pl, from_ms as int, k);
                    let v = block_video(*pl, from_ms as int, k);
                    &&& out@[k].start_ms == tv + 1000 * s
                    &&& s < to_sec
                    &&& out@[k].end_ms == tv + 1000 * (if e < to_sec {
                        e
                    } else {
                        to_sec as int
                    })
                    &&& out@[k].title == v.title
                    &&& out@[k].video_id == v.video_id
                },
            forall|k: int| 0 <= k < out@.len() - 1 ==> #[trigger] out@[k + 1].start_ms == out@[k].end_ms,
        decreases (if first {
            1int
        } else {
            0int
        }), to_sec - cur, zero_run(d, pos as int, n as nat),
    {
        let v = &pl.videos[pos];
        let remaining = if first {
            v.duration - inner_offset
        } else {
            v.duration
        };
        let ghost k = out@.len() as int;
        proof {
            assert(block_video(*pl, from_ms as int, k) == d[pos as int]);
            assert(block_length(*pl, from_ms as int, k) == remaining);
        }
        let ghost was_first = first;
        first = false;
        let end = if cur + remaining < to_sec {
            cur + remaining
        } else {
            to_sec
        };
        let ghost old_pos = pos;
        let ghost old_cur = cur;
        let b = Block {
            start_ms: tv + cur * 1000,
            end_ms: tv + end * 1000,
            title: v.title.clone(),
            video_id: v.video_id.clone(),
        };
        proof {
            assert((b.start_ms - tv) / 1000 == cur as int) by {
                assert(b.start_ms - tv == 1000 * cur);
            }
        }
        out.push(b);
        cur = end;
        pos = if pos + 1 == n {
            0
        } else {
            pos + 1
        };
        proof {
            assert(pos as int == (idx0 + out@.len()) % (n as int)) by {
                vstd::arithmetic::div_mod::lemma_add_mod_noop_right(1, idx0 + k, n as int);
                assert(idx0 + out@.len() == 1 + (idx0 + k));
                if old_pos + 1 == n {
                    vstd::arithmetic::div_mod::lemma_mod_self_0(n as int);
                } else {
                    vstd::arithmetic::div_mod::lemma_small_mod((old_pos + 1) as nat, n as nat);
                }
            }
            if !was_first && d[old_pos as int].duration == 0 {
                assert(cur == old_cur);
                vstd::arithmetic::div_mod::lemma_small_mod(old_pos as nat, n as nat);
                lemma_zero_run_short(d, old_pos as int, jpos);
                assert(zero_run(d, old_pos as int, n as nat) == 1 + zero_run(
                    d,
                    old_pos + 1,
                    (n - 1) as nat,
                ));
                lemma_zero_run_bound(d, old_pos + 1, (n - 1) as nat);
                lemma_zero_run_stable(d, old_pos + 1, (n - 1) as nat);
                lemma_zero_run_shift(d, old_pos as int, n as nat);
            }
        }
    }
    out
}

/// Zero runs only depend on the index modulo the playlist length.
proof fn lemma_zero_run_shift(d: Seq<ScheduledVideo>, p: int, k: nat)
    requires
        d.len() > 0,
        0 <= p < d.len(),
    ensures
        zero_run(d, (if p + 1 == d.len() {
            0
        } else {
            p + 1
        }), k) == zero_run(d, p + 1, k),
{
    lemma_zero_run_mod(d, p + 1, k);
    lemma_zero_run_mod(d, if p + 1 == d.len() {
        0
    } else {
        p + 1
    }, k);
    if p + 1 == d.len() {
        vstd::arithmetic::div_mod::lemma_mod_self_0(d.len() as int);
    } else {
        vstd::arithmetic::div_mod::lemma_small_mod((p + 1) as nat, d.len());
    }
}

proof fn lemma_zero_run_mod(d: Seq<ScheduledVideo>, i: int, k: nat)
    requires
        d.len() > 0,
        i >= 0,
    ensures
        zero_run(d, i, k) == zero_run(d, i % (d.len() as int), k),
    decreases k,
{
    let n = d.len() as int;
    if k > 0 {
        vstd::arithmetic::div_mod::lemma_mod_twice(i, n);
        lemma_zero_run_mod(d, i + 1, (k - 1) as nat);
        lemma_zero_run_mod(d, i % n + 1, (k - 1) as nat);
        vstd::arithmetic::div_mod::lemma_add_mod_noop(i, 1, n);
        vstd::arithmetic::div_mod::lemma_add_mod_noop(i % n, 1, n);
        vstd::arithmetic::div_mod::lemma_mod_twice(i, n);
    }
}

/// A playlist with a positive total duration has a video of non-zero
/// duration.
proof fn lemma_some_positive(d: Seq<ScheduledVideo>)
    requires
        duration_sum(d) > 0,
    ensures
        exists|j: int| 0 <= j < d.len() && d[j].duration != 0,
    decreases d.len(),
{
    if d.len() > 0 {
        if d.last().duration != 0 {
            assert(d[d.len() - 1].duration != 0);
        } else {
            lemma_some_positive(d.drop_last());
            let j = choose|j: int| 0 <= j < d.drop_last().len() && d.drop_last()[j].duration != 0;
            assert(d[j] == d.drop_last()[j]);
        }
    }
}

/// `ms` moved by `days` whole days.
pub fn add_days_ms(ms: i64, days: i64) -> (r: i64)
    requires
        i64::MIN <= days * 86_400_000 <= i64::MAX,
        i64::MIN <= ms + days * 86_400_000 <= i64::MAX,
    ensures
        r == ms + days * 86_400_000,
{
    ms + days * 86_400_000
}

/// The seven day starts of the week beginning at `week_start_ms`.
pub fn week_days(week_start_ms: i64) -> (r: [i64; 7])
    requires
        i64::MIN <= week_start_ms <= i64::MAX - 6 * 86_400_000,
    ensures
        forall|i: int| 0 <= i < 7 ==> #[trigger] r@[i] == week_start_ms + i * 86_400_000,
{
    let r = [
        add_days_ms(week_start_ms, 0),
        add_days_ms(week_start_ms, 1),
        add_days_ms(week_start_ms, 2),
        add_days_ms(week_start_ms, 3),
        add_days_ms(week_start_ms, 4),
        add_days_ms(week_start_ms, 5),
        add_days_ms(week_start_ms, 6),
    ];
    assert forall|i: int| 0 <= i < 7 implies #[trigger] r@[i] == week_start_ms + i * 86_400_000 by {
        if i == 0 {
        } else if i == 1 {
        } else if i == 2 {
        } else if i == 3 {
        } else if i == 4 {
        } else if i == 5 {
        } else {
        }
    }
    r
}

/// Monday 00:00 of the local week, in ms: from the Unix time (seconds)
/// of the local midnight starting the current day, and the local weekday
/// (`tm_wday`, 0 = Sunday).
pub fn start_of_week_ms(day_start_secs: i64, tm_wday: i32) -> (r: i64)
    requires
        0 <= tm_wday <= 6,
        -0x10_0000_0000_0000 <= day_start_secs <= 0x10_0000_0000_0000,
    ensures
        r == (day_start_secs - ((tm_wday + 6) % 7) * 86400) * 1000,
{
    let dow_from_monday = ((tm_wday + 6) % 7) as i64;
    (day_start_secs - dow_from_monday * 86400) * 1000
}

/// Two local dates, as `(tm_year, tm_mon, tm_mday)`, are the same day.
pub fn is_today(a: (i32, i32, i32), b: (i32, i32, i32)) -> (r: bool)
    ensures
        r == (a == b),
{
    a.0 == b.0 && a.1 == b.1 && a.2 == b.2
}

/// A block is the one on air: it is on today's column and `now_ms` lies
/// in `[start_ms, end_ms)`.
pub fn is_current_block(is_today: bool, start_ms: i64, end_ms: i64, now_ms: i64) -> (r: bool)
    ensures
        r == (is_today && start_ms <= now_ms && end_ms > now_ms),
{
    is_today && start_ms <= now_ms && end_ms > now_ms
}

/// French abbreviated month names, January = 0.
pub open spec fn month_abbrev(m: int) -> Seq<char> {
    if m == 0 {
        "janv."@
    } else if m == 1 {
        "févr."@
    } else if m == 2 {
        "mars"@
    } else if m == 3 {
        "avr."@
    } else if m == 4 {
        "mai"@
    } else if m == 5 {
        "juin"@
    } else if m == 6 {
        "juil."@
    } else if m == 7 {
        "août"@
    } else if m == 8 {
        "sept."@
    } else if m == 9 {
        "oct."@
    } else if m == 10 {
        "nov."@
    } else {
        "déc."@
    }
}

fn month_abbrev_str(m: u32) -> (s: &'static str)
    ensures
        s@ == month_abbrev(m as int),
{
    if m == 0 {
        "janv."
    } else if m == 1 {
        "févr."
    } else if m == 2 {
        "mars"
    } else if m == 3 {
        "avr."
    } else if m == 4 {
        "mai"
    } else if m == 5 {
        "juin"
    } else if m == 6 {
        "juil."
    } else if m == 7 {
        "août"
    } else if m == 8 {
        "sept."
    } else if m == 9 {
        "oct."
    } else if m == 10 {
        "nov."
    } else {
        "déc."
    }
}

/// Day header label `"DD mois."` from the local day of month and month
/// index (0 = January).
pub fn fmt_day(tm_mday: u32, tm_mon: u32) -> (r: String)
    requires
        tm_mon < 12,
    ensures
        r@ == decimal2(tm_mday as nat) + " "@ + month_abbrev(tm_mon as int),
{
    let mut s = String::new();
    append_decimal2(&mut s, tm_mday as u64);
    s.append(" ");
    s.append(month_abbrev_str(tm_mon));
    assert(s@ =~= decimal2(tm_mday as nat) + " "@ + month_abbrev(tm_mon as int));
    s
}

/// `"HH:MM"` of a local time.
pub fn local_time_hhmm(tm_hour: u32, tm_min: u32) -> (r: String)
    ensures
        r@ == decimal2(tm_hour as nat) + ":"@ + decimal2(tm_min as nat),
{
    let mut s = String::new();
    append_decimal2(&mut s, tm_hour as u64);
    s.append(":");
    append_decimal2(&mut s, tm_min as u64);
    assert(s@ =~= decimal2(tm_hour as nat) + ":"@ + decimal2(tm_min as nat));
    s
}

/// The week shown: this week (0) or the next one (1).
pub fn clamp_week_offset(offset: i32) -> (r: i32)
    ensures
        r == (if offset < 0 {
            0
        } else if offset > 1 {
            1
        } else {
            offset
        }),
{
    if offset < 0 {
        0
    } else if offset > 1 {
        1
    } else {
        offset
    }
}

/// The scroll anchor that puts the hour before `hour` at the top of the
/// grid (anchor 0 is the header).
pub fn scroll_target_for_hour(hour: usize) -> (r: usize)
    ensures
        r == (if hour >= 1 {
            if hour - 1 < HOURS_VISIBLE - 1 {
                hour - 1
            } else {
                HOURS_VISIBLE - 1
            }
        } else {
            0
        }) + 1,
{
    let prev = if hour >= 1 {
        hour - 1
    } else {
        0
    };
    let capped = if prev < (HOURS_VISIBLE as usize) - 1 {
        prev
    } else {
        (HOURS_VISIBLE as usize) - 1
    };
    capped + 1
}

/// The display name of the channel `selected`: the name of the first
/// channel with that id, or the id itself.
pub open spec fn channel_name_of(channels: Seq<ServerChannel>, selected: Seq<char>) -> Seq<char>
    decreases channels.len(),
{
    if channels.len() == 0 {
        selected
    } else if channels[0].id@ == selected {
        channels[0].name@
    } else {
        channel_name_of(channels.drop_first(), selected)
    }
}

/// The name shown for the selected channel in the dropdown.
pub fn channel_name(channels: &Vec<ServerChannel>, selected_channel_id: &str) -> (r: String)
    ensures
        r@ == channel_name_of(channels@, selected_channel_id@),
{
    let n = channels.len();
    let mut i: usize = 0;
    assert(channels@.subrange(0, n as int) =~= channels@);
    while i < n
        invariant
            n == channels@.len(),
            i <= n,
            channel_name_of(channels@, selected_channel_id@) == channel_name_of(
                channels@.subrange(i as int, n as int),
                selected_channel_id@,
            ),
        decreases n - i,
    {
        let ghost rest = channels@.subrange(i as int, n as int);
        assert(rest[0] == channels@[i as int]);
        if str_eq(channels[i].id.as_str(), selected_channel_id) {
            return channels[i].name.clone();
        }
        assert(rest.drop_first() =~= channels@.subrange(i + 1, n as int));
        i = i + 1;
    }
    string_of(selected_channel_id)
}

// ---------------------------------------------------------------------
// The weekly grid
// ---------------------------------------------------------------------

/// Pixels of one hour row.
pub const HOUR_PX: i64 = 120;
/// Pixels of the day headers.
pub const HEADER_PX: i64 = 72;
/// Vertical gap between blocks, in pixels.
pub const GAP_PX: i64 = 4;
/// Blocks shorter than this (in pixels, gap removed) are not drawn.
pub const MIN_BLOCK_PX: i64 = 2;
/// Blocks at least this tall (in pixels) show their title.
pub const MIN_BLOCK_FOR_TITLE_PX: i64 = 34;
/// Milliseconds of video per pixel of grid (an hour is 120 px).
pub const MS_PER_PX: i64 = 30_000;

/// Where a block sits in its day column, in thousandths of a pixel.
pub struct BlockLayout {
    pub top_milli: i64,
    pub height_milli: i64,
    /// The block is tall enough to show its title.
    pub show_title: bool,
}

/// The layout of block `[start_ms, end_ms)` in the column of the day
/// starting at `day_start_ms`: `None` when it is too short to be drawn
/// (under 2 px once the 4 px gap is removed). Positions are exact
/// quotients, truncated to thousandths of a pixel.
pub open spec fn block_layout_spec(day_start_ms: int, start_ms: int, end_ms: int) -> Option<(int, int, bool)> {
    let len = end_ms - start_ms;
    if len < (MIN_BLOCK_PX + GAP_PX) * MS_PER_PX {
        None
    } else {
        Some((
            tdiv((start_ms - day_start_ms) * 1000, MS_PER_PX as int) + GAP_PX * 1000 / 2,
            tdiv(len * 1000, MS_PER_PX as int) - GAP_PX * 1000,
            len >= (MIN_BLOCK_FOR_TITLE_PX + GAP_PX) * MS_PER_PX,
        ))
    }
}

pub fn block_layout(day_start_ms: i64, start_ms: i64, end_ms: i64) -> (r: Option<BlockLayout>)
    requires
        -0x10_0000_0000_0000 <= day_start_ms <= 0x10_0000_0000_0000,
        -0x10_0000_0000_0000 <= start_ms <= 0x10_0000_0000_0000,
        -0x10_0000_0000_0000 <= end_ms <= 0x10_0000_0000_0000,
    ensures
        (r is None) == (block_layout_spec(day_start_ms as int, start_ms as int, end_ms as int) is None),
        r matches Some(b) ==> block_layout_spec(day_start_ms as int, start_ms as int, end_ms as int)
            == Some((b.top_milli as int, b.height_milli as int, b.show_title)),
{
    let len = end_ms - start_ms;
    if len < (MIN_BLOCK_PX + GAP_PX) * MS_PER_PX {
        return None;
    }
    let top = (start_ms - day_start_ms) * 1000 / MS_PER_PX + GAP_PX * 1000 / 2;
    let height = len * 1000 / MS_PER_PX - GAP_PX * 1000;
    Some(BlockLayout {
        top_milli: top,
        height_milli: height,
        show_title: len >= (MIN_BLOCK_FOR_TITLE_PX + GAP_PX) * MS_PER_PX,
    })
}

/// Height of the red "now" line below the top of the grid, in
/// thousandths of a pixel, for a local time of day.
pub fn now_line_y_milli(tm_hour: u32, tm_min: u32, tm_sec: u32) -> (r: i64)
    requires
        tm_hour < 24,
        tm_min < 60,
        tm_sec <= 60,
    ensures
        r == HEADER_PX * 1000 + (tm_hour * 3600 + tm_min * 60 + tm_sec) * HOUR_PX * 1000 / 3600,
{
    let secs: i64 = tm_hour as i64 * 3600 + tm_min as i64 * 60 + tm_sec as i64;
    HEADER_PX * 1000 + secs * HOUR_PX * 1000 / 3600
}

/// Label of the hour row `h`: `"HH:00"`.
pub fn hour_label(h: u32) -> (r: String)
    ensures
        r@ == decimal2(h as nat) + ":00"@,
{
    let mut s = String::new();
    append_decimal2(&mut s, h as u64);
    s.append(":00");
    assert(s@ =~= decimal2(h as nat) + ":00"@);
    s
}

/// Column header of weekday `i` (0 = Monday).
pub open spec fn day_header(i: int) -> Seq<char> {
    if i == 0 {
        "LUN"@
    } else if i == 1 {
        "MAR"@
    } else if i == 2 {
        "MER"@
    } else if i == 3 {
        "JEU"@
    } else if i == 4 {
        "VEN"@
    } else if i == 5 {
        "SAM"@
    } else {
        "DIM"@
    }
}

pub fn day_header_label(i: usize) -> (r: &'static str)
    requires
        i < 7,
    ensures
        r@ == day_header(i as int),
{
    if i == 0 {
        "LUN"
    } else if i == 1 {
        "MAR"
    } else if i == 2 {
        "MER"
    } else if i == 3 {
        "JEU"
    } else if i == 4 {
        "VEN"
    } else if i == 5 {
        "SAM"
    } else {
        "DIM"
    }
}

/// Title of the week shown.
pub fn week_label(week_offset: i32) -> (r: &'static str)
    ensures
        r@ == (if week_offset == 0 { "Cette semaine"@ } else { "Semaine prochaine"@ }),
{
    if week_offset == 0 {
        "Cette semaine"
    } else {
        "Semaine prochaine"
    }
}

/// `"<first day> — <last day>"` under the week title.
pub fn range_label(first: &str, last: &str) -> (r: String)
    ensures
        r@ == first@ + " \u{2014} "@ + last@,
{
    let mut s = string_of(first);
    s.append(" \u{2014} ");
    s.append(last);
    s
}

// ---------------------------------------------------------------------
// The view's state
// ---------------------------------------------------------------------

/// What the body of the view shows.
#[derive(Copy, Clone, PartialEq, Eq, Debug, Structural)]
pub enum PlanningBody {
    Loading,
    Grid,
    Unavailable,
}

/// State of the planning view.
pub struct PlanningView {
    pub channels: Vec<ServerChannel>,
    pub selected_channel_id: String,
    pub playlist: Option<PlaylistInfo>,
    pub loading: bool,
    /// 0: this week, 1: next week.
    pub week_offset: i32,
    /// The grid was scrolled to the current hour.
    pub scrolled_once: bool,
    pub now_ms: i64,
    pub channel_dropdown_open: bool,
}

impl PlanningView {
    /// The view for `initial_channel`, fetching its playlist.
    pub fn new(channels: Vec<ServerChannel>, initial_channel: String, now_ms: i64) -> (r: Self)
        ensures
            r.channels == channels,
            r.selected_channel_id == initial_channel,
            r.playlist is None,
            r.loading,
            r.week_offset == 0,
            !r.scrolled_once,
            r.now_ms == now_ms,
            !r.channel_dropdown_open,
    {
        let mut v = PlanningView {
            channels,
            selected_channel_id: initial_channel,
            playlist: None,
            loading: true,
            week_offset: 0,
            scrolled_once: false,
            now_ms,
            channel_dropdown_open: false,
        };
        v.start_fetch();
        v
    }

    /// A fetch of the selected channel's playlist begins.
    pub fn start_fetch(&mut self)
        ensures
            final(self).loading,
            final(self).playlist is None,
            !final(self).scrolled_once,
            final(self).selected_channel_id == old(self).selected_channel_id,
            final(self).channels == old(self).channels,
            final(self).week_offset == old(self).week_offset,
            final(self).now_ms == old(self).now_ms,
            final(self).channel_dropdown_open == old(self).channel_dropdown_open,
    {
        self.loading = true;
        self.playlist = None;
        self.scrolled_once = false;
    }

    /// The fetch answered (`None`: it failed).
    pub fn fetch_finished(&mut self, playlist: Option<PlaylistInfo>)
        ensures
            final(self).playlist == playlist,
            !final(self).loading,
            final(self).selected_channel_id == old(self).selected_channel_id,
            final(self).week_offset == old(self).week_offset,
            final(self).scrolled_once == old(self).scrolled_once,
    {
        self.playlist = playlist;
        self.loading = false;
    }

    /// The fetch gave no answer in time.
    pub fn fetch_timed_out(&mut self)
        ensures
            !final(self).loading,
            final(self).playlist == old(self).playlist,
            final(self).selected_channel_id == old(self).selected_channel_id,
    {
        self.loading = false;
    }

    /// Show channel `id`: a new channel starts a fetch (returns true).
    pub fn set_channel(&mut self, id: String) -> (fetch: bool)
        ensures
            fetch == (id@ != old(self).selected_channel_id@),
            fetch ==> final(self).selected_channel_id == id && final(self).loading && final(self).playlist is None
                && !final(self).scrolled_once,
            !fetch ==> final(self).selected_channel_id == old(self).selected_channel_id && final(self).loading
                == old(self).loading && final(self).playlist == old(self).playlist,
            final(self).week_offset == old(self).week_offset,
            final(self).channel_dropdown_open == old(self).channel_dropdown_open,
    {
        if str_eq(id.as_str(), self.selected_channel_id.as_str()) {
            return false;
        }
        self.selected_channel_id = id;
        self.start_fetch();
        true
    }

    /// Show week `offset` (kept to this or next week), scrolled anew.
    pub fn set_week(&mut self, offset: i32)
        ensures
            final(self).week_offset == (if offset < 0 { 0 } else if offset > 1 { 1 } else { offset }),
            !final(self).scrolled_once,
            final(self).selected_channel_id == old(self).selected_channel_id,
            final(self).loading == old(self).loading,
            final(self).playlist == old(self).playlist,
    {
        self.week_offset = clamp_week_offset(offset);
        self.scrolled_once = false;
    }

    /// The "previous week" button.
    pub fn week_prev(&mut self)
        requires
            0 <= old(self).week_offset <= 1,
        ensures
            final(self).week_offset == 0,
            old(self).week_offset > 0 ==> !final(self).scrolled_once,
            old(self).week_offset == 0 ==> final(self).scrolled_once == old(self).scrolled_once,
    {
        if self.week_offset > 0 {
            self.set_week(self.week_offset - 1);
        }
    }

    /// The "next week" button.
    pub fn week_next(&mut self)
        requires
            0 <= old(self).week_offset <= 1,
        ensures
            final(self).week_offset == 1,
            old(self).week_offset < 1 ==> !final(self).scrolled_once,
            old(self).week_offset == 1 ==> final(self).scrolled_once == old(self).scrolled_once,
    {
        if self.week_offset < 1 {
            self.set_week(self.week_offset + 1);
        }
    }

    /// The dropdown button.
    pub fn toggle_dropdown(&mut self)
        ensures
            final(self).channel_dropdown_open == !old(self).channel_dropdown_open,
            final(self).selected_channel_id == old(self).selected_channel_id,
    {
        self.channel_dropdown_open = !self.channel_dropdown_open;
    }

    /// A channel of the dropdown was clicked: show it and close the list.
    pub fn pick_channel(&mut self, id: String) -> (fetch: bool)
        ensures
            fetch == (id@ != old(self).selected_channel_id@),
            final(self).selected_channel_id@ == id@,
            !final(self).channel_dropdown_open,
            fetch ==> final(self).loading && final(self).playlist is None,
    {
        let fetch = self.set_channel(id);
        self.channel_dropdown_open = false;
        fetch
    }

    /// A click outside the open list closes it.
    pub fn dismiss_dropdown(&mut self)
        ensures
            !final(self).channel_dropdown_open,
            final(self).selected_channel_id == old(self).selected_channel_id,
    {
        self.channel_dropdown_open = false;
    }

    /// The clock moved (every 30 s).
    pub fn tick(&mut self, now_ms: i64)
        ensures
            final(self).now_ms == now_ms,
            final(self).selected_channel_id == old(self).selected_channel_id,
            final(self).scrolled_once == old(self).scrolled_once,
    {
        self.now_ms = now_ms;
    }

    /// On drawing, at local hour `hour`: the scroll anchor to go to, the
    /// first time only.
    pub fn take_scroll_target(&mut self, hour: usize) -> (r: Option<usize>)
        ensures
            final(self).scrolled_once,
            old(self).scrolled_once ==> r is None,
            !old(self).scrolled_once ==> r == Some(scroll_target_for_hour_spec(hour as int) as usize),
            final(self).week_offset == old(self).week_offset,
    {
        if self.scrolled_once {
            return None;
        }
        self.scrolled_once = true;
        Some(scroll_target_for_hour(hour))
    }

    /// What the body shows.
    pub fn body(&self) -> (r: PlanningBody)
        ensures
            r == (if self.loading {
                PlanningBody::Loading
            } else if self.playlist is Some {
                PlanningBody::Grid
            } else {
                PlanningBody::Unavailable
            }),
    {
        if self.loading {
            PlanningBody::Loading
        } else if self.playlist.is_some() {
            PlanningBody::Grid
        } else {
            PlanningBody::Unavailable
        }
    }

    /// Monday 00:00 of the week shown, from Monday 00:00 of the current week.
    pub fn week_start(&self, current_week_start_ms: i64) -> (r: i64)
        requires
            0 <= self.week_offset <= 1,
            i64::MIN <= current_week_start_ms + self.week_offset * 7 * 86_400_000 <= i64::MAX,
        ensures
            r == current_week_start_ms + self.week_offset * 7 * 86_400_000,
    {
        add_days_ms(current_week_start_ms, self.week_offset as i64 * 7)
    }
}

/// The scroll anchor that puts the hour before `hour` at the top.
pub open spec fn scroll_target_for_hour_spec(hour: int) -> int {
    (if hour >= 1 {
        if hour - 1 < HOURS_VISIBLE - 1 {
            hour - 1
        } else {
            HOURS_VISIBLE - 1
        }
    } else {
        0
    }) + 1
}

} // verus!
