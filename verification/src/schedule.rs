//! Linear vesting: how much of a vault has vested at a given time.

use vstd::prelude::*;
use crate::vault::Vault;

verus! {

/// The amount of `v` vested at time `now`: nothing up to the start, all of it
/// from the end on, and in between the share of the total proportional to the
/// time elapsed since the start, rounded down.
pub open spec fn vested(v: Vault, now: u64) -> int {
    if now >= v.end_time {
        v.total_amount as int
    } else if now <= v.start_time {
        0
    } else {
        (v.total_amount * (now - v.start_time)) / ((v.end_time - v.start_time) as int)
    }
}

proof fn lemma_quotient(n: int, d: int, q: int, r: int)
    requires
        d > 0,
        0 <= r < d,
        n == q * d + r,
    ensures
        n / d == q,
{
    vstd::arithmetic::div_mod::lemma_fundamental_div_mod_converse(n, d, q, r);
}

/// `x * e / d`, rounded down, for `0 <= e < d`; computed without leaving the
/// range of the integer types.
fn scaled_floor(x: i128, e: u64, d: u64) -> (r: i128)
    requires
        e < d,
    ensures
        r as int == (x * e) / (d as int),
{
    let dd = d as u128;
    let ee = e as u128;
    if x >= 0 {
        let u = x as u128;
        let q = u / dd;
        let rem = u % dd;
        proof {
            vstd::arithmetic::div_mod::lemma_fundamental_div_mod(u as int, dd as int);
            assert(rem * ee < 0x1_0000_0000_0000_0000_0000_0000_0000_0000) by (nonlinear_arith)
                requires
                    rem < dd,
                    ee < dd,
                    dd <= 0xffff_ffff_ffff_ffff,
            ;
            assert(q * ee <= u) by (nonlinear_arith)
                requires
                    u == dd * q + rem,
                    ee < dd,
                    0 <= rem,
                    0 <= q,
            ;
        }
        let y = rem * ee;
        let s = y / dd;
        let qe = q * ee;
        proof {
            vstd::arithmetic::div_mod::lemma_fundamental_div_mod(y as int, dd as int);
            let t = y % dd;
            assert(x * e == (qe + s) * d + t) by (nonlinear_arith)
                requires
                    x == dd * q + rem,
                    y == rem * ee,
                    y == dd * s + t,
                    qe == q * ee,
                    dd == d,
                    ee == e,
            ;
            lemma_quotient(x * e, d as int, qe + s, t as int);
            assert((qe + s) * d <= x * d) by (nonlinear_arith)
                requires
                    x * e == (qe + s) * d + t,
                    0 <= t,
                    0 <= x,
                    e < d,
            ;
            assert(qe + s <= x) by (nonlinear_arith)
                requires
                    (qe + s) * d <= x * d,
                    d > 0,
            ;
        }
        (qe + s) as i128
    } else {
        let u = ((-(x + 1)) as u128) + 1;
        let q = u / dd;
        let rem = u % dd;
        proof {
            vstd::arithmetic::div_mod::lemma_fundamental_div_mod(u as int, dd as int);
            assert(rem * ee + dd - 1 < 0x1_0000_0000_0000_0000_0000_0000_0000_0000) by (nonlinear_arith)
                requires
                    rem < dd,
                    ee < dd,
                    dd <= 0xffff_ffff_ffff_ffff,
            ;
            assert(q * ee <= u) by (nonlinear_arith)
                requires
                    u == dd * q + rem,
                    ee < dd,
                    0 <= rem,
                    0 <= q,
            ;
        }
        let y = rem * ee + (dd - 1);
        let c2 = y / dd;
        let qe = q * ee;
        proof {
            vstd::arithmetic::div_mod::lemma_fundamental_div_mod(y as int, dd as int);
            let t2 = y % dd;
            assert(x * e == (-(qe + c2)) * d + (d - 1 - t2)) by (nonlinear_arith)
                requires
                    x == -u,
                    u == dd * q + rem,
                    y == rem * ee + dd - 1,
                    y == dd * c2 + t2,
                    qe == q * ee,
                    dd == d,
                    ee == e,
            ;
            lemma_quotient(x * e, d as int, -(qe + c2), d - 1 - t2);
            assert(-(qe + c2) >= x) by (nonlinear_arith)
                requires
                    x * e == (-(qe + c2)) * d + (d - 1 - t2),
                    0 <= t2 < d,
                    x < 0,
                    0 <= e < d,
            ;
        }
        let c = qe + c2;
        if c == 0x8000_0000_0000_0000_0000_0000_0000_0000 {
            i128::MIN
        } else {
            -(c as i128)
        }
    }
}

proof fn lemma_share_bounds(total: int, e: int, d: int)
    requires
        0 <= e <= d,
        d > 0,
    ensures
        total >= 0 ==> 0 <= (total * e) / d <= total,
        total < 0 ==> total <= (total * e) / d <= 0,
{
    vstd::arithmetic::div_mod::lemma_div_multiples_vanish(total, d);
    assert(d * total == total * d) by (nonlinear_arith);
    if total >= 0 {
        assert(0 <= total * e <= total * d) by (nonlinear_arith)
            requires
                total >= 0,
                0 <= e <= d,
        ;
        vstd::arithmetic::div_mod::lemma_div_is_ordered(0, total * e, d);
        vstd::arithmetic::div_mod::lemma_div_is_ordered(total * e, total * d, d);
    } else {
        assert(total * d <= total * e <= 0) by (nonlinear_arith)
            requires
                total < 0,
                0 <= e <= d,
        ;
        vstd::arithmetic::div_mod::lemma_div_is_ordered(total * d, total * e, d);
        vstd::arithmetic::div_mod::lemma_div_is_ordered(total * e, 0, d);
    }
}

/// The vesting schedule: a vault with a non-negative total has between
/// nothing and all of it vested, nothing up to its start, all of it from its
/// end on, and never less later than earlier.
pub proof fn law_vesting_schedule(v: Vault, now: u64, later: u64)
    ensures
        v.total_amount >= 0 ==> 0 <= vested(v, now) <= v.total_amount,
        v.total_amount < 0 ==> v.total_amount <= vested(v, now) <= 0,
        now >= v.end_time ==> vested(v, now) == v.total_amount,
        now < v.end_time && now <= v.start_time ==> vested(v, now) == 0,
        v.total_amount >= 0 && now <= later ==> vested(v, now) <= vested(v, later),
{
    let d = (v.end_time - v.start_time) as int;
    if now < v.end_time && now > v.start_time {
        lemma_share_bounds(v.total_amount as int, now - v.start_time, d);
    }
    if later < v.end_time && later > v.start_time {
        lemma_share_bounds(v.total_amount as int, later - v.start_time, d);
    }
    if v.total_amount >= 0 && now <= later && now > v.start_time && later < v.end_time {
        assert(v.total_amount * (now - v.start_time) <= v.total_amount * (later - v.start_time)) by (nonlinear_arith)
            requires
                v.total_amount >= 0,
                now <= later,
        ;
        vstd::arithmetic::div_mod::lemma_div_is_ordered(
            v.total_amount * (now - v.start_time),
            v.total_amount * (later - v.start_time),
            d,
        );
    }
}

impl Vault {
    /// The amount of this vault vested at time `now`.
    pub fn vested_at(&self, now: u64) -> (r: i128)
        ensures
            r as int == vested(*self, now),
    {
        if now >= self.end_time {
            self.total_amount
        } else if now <= self.start_time {
            0
        } else {
            scaled_floor(self.total_amount, now - self.start_time, self.end_time - self.start_time)
        }
    }
}

} // verus!
