//! The volume crossfade of the player: the volume to set at each step of
//! a fade, stepped by the caller every 16 ms.

use vstd::prelude::*;

verus! {

/// `n / d` rounded to the nearest integer, halves away from zero (`f64::round`).
pub open spec fn round_div(n: int, d: int) -> int {
    if n >= 0 {
        (2 * n + d) / (2 * d)
    } else {
        -((2 * (-n) + d) / (2 * d))
    }
}

/// A fade of the volume from `from` to `to` over `total_ms`, read after
/// `elapsed_ms`: `(volume, done)`. Once the time is over the volume is
/// `to` and the fade ends; before, it is `from + (to - from) * t` for
/// `t = elapsed / total` (a total of 0 counts as 1), rounded, computed
/// exactly.
pub open spec fn fade_step_spec(from: int, to: int, total_ms: int, elapsed_ms: int) -> (int, bool) {
    if elapsed_ms >= total_ms {
        (to, true)
    } else {
        let t = if total_ms > 0 { total_ms } else { 1 };
        (round_div(from * t + (to - from) * elapsed_ms, t), false)
    }
}

/// The faded volume lies between the two ends.
proof fn lemma_fade_bounds(from: int, to: int, t: int, e: int, n: int, v: int)
    requires
        n == from * t + (to - from) * e,
        0 <= e < t,
        n >= 0 ==> v == (2 * n + t) / (2 * t),
        n < 0 ==> v == -((2 * (-n) + t) / (2 * t)),
    ensures
        (if from < to { from } else { to }) <= v <= (if from < to { to } else { from }),
{
    let lo = if from < to { from } else { to };
    let hi = if from < to { to } else { from };
    assert(lo * t <= n <= hi * t) by (nonlinear_arith)
        requires
            n == from * t + (to - from) * e,
            0 <= e < t,
            lo == (if from < to { from } else { to }),
            hi == (if from < to { to } else { from }),
    ;
    if n >= 0 {
        assert(lo <= v <= hi) by (nonlinear_arith)
            requires
                lo * t <= n <= hi * t,
                t >= 1,
                n >= 0,
                v == (2 * n + t) / (2 * t),
        ;
    } else {
        assert(lo <= v <= hi) by (nonlinear_arith)
            requires
                lo * t <= n <= hi * t,
                t >= 1,
                n < 0,
                v == -((2 * (-n) + t) / (2 * t)),
        ;
    }
}

/// `round_div(m * t + r, t)` from the whole part `m` and the remainder
/// `r`: halves round away from zero.
proof fn lemma_round_parts(m: int, r: int, t: int)
    requires
        t >= 1,
        0 <= r < t,
    ensures
        round_div(m * t + r, t) == m + (if m >= 0 {
            if 2 * r >= t { 1int } else { 0 }
        } else {
            if 2 * r > t { 1int } else { 0 }
        }),
{
    let n = m * t + r;
    if m >= 0 {
        assert(n >= 0) by (nonlinear_arith)
            requires
                m >= 0,
                t >= 1,
                r >= 0,
                n == m * t + r,
        ;
        let q = m + (if 2 * r >= t { 1int } else { 0 });
        let rr = 2 * n + t - 2 * t * q;
        assert(2 * n + t == q * (2 * t) + rr && 0 <= rr < 2 * t) by (nonlinear_arith)
            requires
                n == m * t + r,
                0 <= r < t,
                q == m + (if 2 * r >= t { 1int } else { 0 }),
                rr == 2 * n + t - 2 * t * q,
        ;
        vstd::arithmetic::div_mod::lemma_fundamental_div_mod_converse(2 * n + t, 2 * t, q, rr);
    } else {
        assert(n < 0) by (nonlinear_arith)
            requires
                m <= -1,
                t >= 1,
                r < t,
                n == m * t + r,
        ;
        // -n rounds half up to -m - (2r > t ? 1 : 0).
        let q = -m - (if 2 * r > t { 1int } else { 0 });
        let rr = 2 * (-n) + t - 2 * t * q;
        assert(2 * (-n) + t == q * (2 * t) + rr && 0 <= rr < 2 * t) by (nonlinear_arith)
            requires
                n == m * t + r,
                0 <= r < t,
                q == -m - (if 2 * r > t { 1int } else { 0 }),
                rr == 2 * (-n) + t - 2 * t * q,
        ;
        vstd::arithmetic::div_mod::lemma_fundamental_div_mod_converse(2 * (-n) + t, 2 * t, q, rr);
    }
}

pub fn fade_step(from: i64, to: i64, total_ms: u64, elapsed_ms: u64) -> (r: (i64, bool))
    ensures
        (r.0 as int, r.1) == fade_step_spec(from as int, to as int, total_ms as int, elapsed_ms as int),
        (if from < to { from } else { to }) <= r.0 <= (if from < to { to } else { from }),
{
    if elapsed_ms >= total_ms {
        return (to, true);
    }
    let t: u128 = if total_ms > 0 { total_ms as u128 } else { 1 };
    let e: u128 = elapsed_ms as u128;
    let d: i128 = to as i128 - from as i128;
    let ad: u128 = if d >= 0 { d as u128 } else { (-d) as u128 };
    assert(ad * e <= 0xffff_ffff_ffff_ffff * 0xffff_ffff_ffff_ffffu128) by (nonlinear_arith)
        requires
            ad <= 0xffff_ffff_ffff_ffff,
            e <= 0xffff_ffff_ffff_ffff,
    ;
    let p: u128 = ad * e;
    let pq: u128 = p / t;
    let pr: u128 = p % t;
    proof {
        vstd::arithmetic::div_mod::lemma_fundamental_div_mod(p as int, t as int);
        assert(pq <= ad) by (nonlinear_arith)
            requires
                p == t * pq + pr,
                pr >= 0,
                p == ad * e,
                e < t,
                t >= 1,
        ;
    }
    // d * e == q * t + rem with 0 <= rem < t.
    let (q, rem): (i128, u128) = if d >= 0 || pr == 0 {
        (if d >= 0 { pq as i128 } else { -(pq as i128) }, pr)
    } else {
        (-(pq as i128) - 1, t - pr)
    };
    let m: i128 = from as i128 + q;
    let up: bool = if m >= 0 { 2 * rem >= t } else { 2 * rem > t };
    let v: i128 = if up { m + 1 } else { m };
    proof {
        let ti = t as int;
        let ei = e as int;
        let di = d as int;
        vstd::arithmetic::div_mod::lemma_fundamental_div_mod(p as int, ti);
        assert(di * ei == q as int * ti + rem as int) by (nonlinear_arith)
            requires
                p as int == ad as int * ei,
                p as int == ti * pq as int + pr as int,
                0 <= pr < ti,
                ad as int == (if di >= 0 { di } else { -di }),
                (di >= 0 || pr == 0) ==> q as int == (if di >= 0 { pq as int } else { -(pq as int) }) && rem == pr,
                !(di >= 0 || pr == 0) ==> q as int == -(pq as int) - 1 && rem as int == ti - pr as int,
        ;
        assert(from as int * ti + di * ei == m as int * ti + rem as int) by (nonlinear_arith)
            requires
                di * ei == q as int * ti + rem as int,
                m as int == from as int + q as int,
        ;
        lemma_round_parts(m as int, rem as int, ti);
        let n = from as int * ti + (to as int - from as int) * ei;
        let vv = round_div(n, ti);
        assert(vv == v as int);
        lemma_fade_bounds(from as int, to as int, ti, ei, n, vv);
    }
    (v as i64, false)
}

} // verus!
