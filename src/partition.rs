use vstd::prelude::*;
use vstd::arithmetic::div_mod::{lemma_fundamental_div_mod_converse, lemma_mod_bound};

verus! {

/// A value below zero, moved to `-v + limit - 1`, divides to the negated floor
/// quotient and leaves the complement of the floor remainder.
pub proof fn lemma_negative_floor(v: int, limit: int)
    requires
        v < 0,
        limit >= 1,
    ensures
        v / limit == -((-v + limit - 1) / limit),
        v % limit == limit - 1 - (-v + limit - 1) % limit,
        v <= v / limit < 0,
{
    let n = -v + limit - 1;
    let q = n / limit;
    let r = n % limit;
    lemma_mod_bound(n, limit);
    vstd::arithmetic::div_mod::lemma_fundamental_div_mod(n, limit);
    assert(v == (-q) * limit + (limit - 1 - r)) by (nonlinear_arith)
        requires
            n == limit * q + r,
            n == -v + limit - 1,
    ;
    lemma_fundamental_div_mod_converse(v, limit, -q, limit - 1 - r);
    assert(v <= -q < 0) by (nonlinear_arith)
        requires
            v == (-q) * limit + (limit - 1 - r),
            0 <= r < limit,
            v < 0,
            limit >= 1,
    ;
}

/// A floor quotient by a positive divisor lies between zero and the dividend.
pub proof fn lemma_div_in_range(v: int, limit: int)
    requires
        limit >= 1,
    ensures
        v >= 0 ==> 0 <= v / limit <= v,
        v < 0 ==> v <= v / limit < 0,
        v == limit * (v / limit) + v % limit,
        0 <= v % limit < limit,
{
    vstd::arithmetic::div_mod::lemma_fundamental_div_mod(v, limit);
    lemma_mod_bound(v, limit);
    let q = v / limit;
    let r = v % limit;
    assert(v >= 0 ==> 0 <= q <= v) by (nonlinear_arith)
        requires
            v == limit * q + r,
            0 <= r < limit,
            limit >= 1,
    ;
    if v < 0 {
        lemma_negative_floor(v, limit);
    }
}

/// The index of the cube that holds coordinate `v` along an axis whose cubes are
/// `limit` wide: the floor of `v / limit`, rounding toward negative infinity.
pub fn floor_div(v: i32, limit: i32) -> (r: i32)
    requires
        limit >= 1,
    ensures
        r == v as int / limit as int,
{
    if v >= 0 {
        v / limit
    } else {
        proof {
            lemma_negative_floor(v as int, limit as int);
        }
        let n: i64 = -(v as i64) + limit as i64 - 1;
        let q: i64 = n / limit as i64;
        (-q) as i32
    }
}

/// The position of coordinate `v` inside its cube along an axis whose cubes are
/// `limit` wide: the remainder in `[0, limit)`.
pub fn floor_mod(v: i32, limit: i32) -> (r: u8)
    requires
        1 <= limit <= 256,
    ensures
        r == v as int % limit as int,
        r < limit,
{
    if v >= 0 {
        (v % limit) as u8
    } else {
        proof {
            lemma_negative_floor(v as int, limit as int);
            lemma_mod_bound(-(v as int) + limit - 1, limit as int);
        }
        let n: i64 = -(v as i64) + limit as i64 - 1;
        (limit as i64 - 1 - n % limit as i64) as u8
    }
}

/// `v / 2` rounded toward negative infinity.
pub fn floor_half(v: i64) -> (r: i64)
    requires
        v > i64::MIN,
    ensures
        r == v as int / 2,
{
    if v >= 0 {
        v / 2
    } else {
        proof {
            lemma_negative_floor(v as int, 2);
        }
        let u = -v;
        assert((u + 1) / 2 == u / 2 + u % 2);
        -(u / 2 + u % 2)
    }
}

} // verus!
