//! Integer helpers that give Rust's `as` conversions and truncating
//! division an exact meaning in contracts.

use vstd::prelude::*;

verus! {

/// The value that Rust's `as i32` gives for an integer: the low 32 bits read
/// as a two's complement number.
pub open spec fn wrap_i32(v: int) -> int {
    let m = v % 0x1_0000_0000;
    if m < 0x8000_0000 {
        m
    } else {
        m - 0x1_0000_0000
    }
}

/// The value that Rust's `as u32` gives for an integer: the low 32 bits.
pub open spec fn wrap_u32(v: int) -> int {
    v % 0x1_0000_0000
}

/// The value that Rust's `as usize` gives for an integer that fits in 64
/// bits: the value modulo the size of `usize`.
pub open spec fn wrap_usize(v: int) -> int {
    v % (usize::MAX + 1)
}

/// Rust's division of integers, which rounds towards zero.
pub open spec fn trunc_div(a: int, b: int) -> int {
    if a >= 0 {
        a / b
    } else {
        -((-a) / b)
    }
}

/// Rust's remainder of integers, which takes the sign of the dividend.
pub open spec fn trunc_rem(a: int, b: int) -> int {
    if a >= 0 {
        a % b
    } else {
        -((-a) % b)
    }
}

/// `v as i32` for a `u32`.
pub fn u32_as_i32(v: u32) -> (r: i32)
    ensures
        r == wrap_i32(v as int),
{
    if v <= 0x7fff_ffff {
        v as i32
    } else {
        let low = (v - 0x8000_0000) as i32;
        low + i32::MIN
    }
}

/// `v as u32` for an `i32`.
pub fn i32_as_u32(v: i32) -> (r: u32)
    ensures
        r == wrap_u32(v as int),
{
    if v >= 0 {
        v as u32
    } else {
        let up: i32 = -(v + 1);
        assert(wrap_u32(v as int) == v + 0x1_0000_0000);
        u32::MAX - (up as u32)
    }
}

/// `v as usize` for an `i32`.
pub fn i32_as_usize(v: i32) -> (r: usize)
    ensures
        r == wrap_usize(v as int),
{
    let ghost m: int = usize::MAX + 1;
    if v >= 0 {
        proof {
            vstd::arithmetic::div_mod::lemma_fundamental_div_mod_converse_mod(v as int, m, 0, v as int);
        }
        v as usize
    } else {
        let up: i32 = -(v + 1);
        proof {
            vstd::arithmetic::div_mod::lemma_fundamental_div_mod_converse_mod(v as int, m, -1, v + m);
        }
        usize::MAX - (up as usize)
    }
}

/// `v as i32` for a `usize`.
pub fn usize_as_i32(v: usize) -> (r: i32)
    ensures
        r == wrap_i32(v as int),
{
    let low = ((v as u64) % 0x1_0000_0000u64) as u32;
    let r = u32_as_i32(low);
    assert(wrap_i32(v as int) == wrap_i32(low as int)) by {
        assert((v as int) % 0x1_0000_0000 == low);
    }
    r
}

/// `v as u32` for a `usize`.
pub fn usize_as_u32(v: usize) -> (r: u32)
    ensures
        r == wrap_u32(v as int),
{
    ((v as u64) % 0x1_0000_0000u64) as u32
}

} // verus!
