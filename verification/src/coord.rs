//! Conversions between tile coordinates and chunk coordinates.

use vstd::prelude::*;
use crate::arith::{trunc_div, wrap_i32, u32_as_i32};
use crate::point::fits_i32;

verus! {

/// The chunk coordinate of a tile coordinate along one axis, for chunks of
/// `size` tiles whose centers lie on the multiples of `size`: the floor of
/// `(v + size / 2) / size`. A size of zero sends positive coordinates to
/// `i32::MAX`, negative ones to `i32::MIN` and zero to zero.
pub open spec fn chunk_coord(v: int, size: u32) -> int {
    if size == 0 {
        if v > 0 {
            i32::MAX as int
        } else if v < 0 {
            i32::MIN as int
        } else {
            0
        }
    } else {
        (2 * v + size) / (2 * size as int)
    }
}

/// The coordinate of a tile inside its chunk along one axis, as computed
/// from the chunk coordinate with `i32` arithmetic.
pub open spec fn local_coord(v: int, size: u32) -> int {
    let s = wrap_i32(size as int);
    v - s * chunk_coord(v, size) + trunc_div(s, 2)
}

/// True when computing `local_coord` in `i32` does not overflow.
pub open spec fn local_defined(v: int, size: u32) -> bool {
    let s = wrap_i32(size as int);
    let c = chunk_coord(v, size);
    &&& fits_i32(s * c)
    &&& fits_i32(v - s * c)
    &&& fits_i32(v - s * c + trunc_div(s, 2))
}

/// The chunk coordinate of a tile coordinate along one axis.
pub fn chunk_coordinate(v: i32, size: u32) -> (c: i32)
    ensures
        c == chunk_coord(v as int, size),
{
    if size == 0 {
        if v > 0 {
            i32::MAX
        } else if v < 0 {
            i32::MIN
        } else {
            0
        }
    } else {
        let n: i64 = 2 * (v as i64) + (size as i64);
        let d: i64 = 2 * (size as i64);
        let q = n / d;
        let r = n % d;
        proof {
            assert(d > 0);
            vstd::arithmetic::div_mod::lemma_fundamental_div_mod(n as int, d as int);
        }
        let f: i64 = if r != 0 && n < 0 {
            q - 1
        } else {
            q
        };
        proof {
            if n >= 0 {
                assert(f == (n as int) / (d as int));
            } else {
                let a = -(n as int);
                let qq = a / (d as int);
                let rr = a % (d as int);
                vstd::arithmetic::div_mod::lemma_fundamental_div_mod(a, d as int);
                vstd::arithmetic::div_mod::lemma_mod_bound(a, d as int);
                assert((-qq) * d == -(d * qq)) by (nonlinear_arith);
                assert((-qq - 1) * d == -(d * qq) - d) by (nonlinear_arith);
                if rr == 0 {
                    vstd::arithmetic::div_mod::lemma_fundamental_div_mod_converse(
                        n as int,
                        d as int,
                        -qq,
                        0,
                    );
                } else {
                    vstd::arithmetic::div_mod::lemma_fundamental_div_mod_converse(
                        n as int,
                        d as int,
                        -qq - 1,
                        d - rr,
                    );
                }
            }
            lemma_chunk_coord_fits(v as int, size);
        }
        f as i32
    }
}

/// The chunk coordinate of an `i32` tile coordinate fits in an `i32`.
pub proof fn lemma_chunk_coord_fits(v: int, size: u32)
    requires
        fits_i32(v),
    ensures
        fits_i32(chunk_coord(v, size)),
{
    if size > 0 {
        let n = 2 * v + size;
        let d = 2 * size as int;
        vstd::arithmetic::div_mod::lemma_fundamental_div_mod(n, d);
        vstd::arithmetic::div_mod::lemma_mod_bound(n, d);
        let q = n / d;
        assert(q * d <= n < q * d + d);
        assert(-0x1_0000_0000 < n <= 0x1_0000_0000 + 0xffff_fffe);
        if q > 0x7fff_ffff {
            assert(q * d >= 0x8000_0000 * d) by (nonlinear_arith)
                requires
                    q >= 0x8000_0000,
                    d > 0,
            ;
            assert(0x8000_0000 * d == 0x8000_0000 * 2 * size);
            assert(false);
        }
        if q < -0x8000_0000 {
            assert(q * d + d <= -0x8000_0000 * d) by (nonlinear_arith)
                requires
                    q <= -0x8000_0001,
                    d > 0,
            ;
            assert(false);
        }
    }
}

/// Inside a chunk of positive size below `2^31`, the local coordinate of a
/// tile lies in `0 .. size`.
pub proof fn lemma_local_coord_in_chunk(v: int, size: u32)
    requires
        0 < size < 0x8000_0000,
    ensures
        0 <= local_coord(v, size) < size,
{
    let s = size as int;
    assert(wrap_i32(s) == s) by {
        vstd::arithmetic::div_mod::lemma_small_mod(s as nat, 0x1_0000_0000);
    }
    let n = 2 * v + s;
    let d = 2 * s;
    vstd::arithmetic::div_mod::lemma_fundamental_div_mod(n, d);
    vstd::arithmetic::div_mod::lemma_mod_bound(n, d);
    let q = n / d;
    assert(q * d == 2 * (s * q)) by (nonlinear_arith)
        requires
            d == 2 * s,
    ;
    assert(q * d <= n < q * d + d);
    let h = s / 2;
    assert(2 * h <= s <= 2 * h + 1);
    assert(local_coord(v, size) == v - s * q + h);
}

/// Computes `local_coord` with `i32` arithmetic.
pub fn local_coordinate(v: i32, c: i32, size: u32) -> (l: i32)
    requires
        c == chunk_coord(v as int, size),
        local_defined(v as int, size),
    ensures
        l == local_coord(v as int, size),
{
    let s = u32_as_i32(size);
    v - (s * c) + (s / 2)
}

} // verus!
