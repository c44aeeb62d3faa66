//! The Microsoft QuadKey encoding of tile coordinates, modeled bit by bit.
//!
//! A QuadKey names a tile by recursively quartering the map: one base-4 digit
//! per zoom level, most significant first. Digit `j` of the key is drawn from
//! bit `zoom - 1 - j` of the column index and of the top-left-origin row
//! index: the column bit contributes 1, the row bit contributes 2.

use vstd::prelude::*;

verus! {

use vstd::arithmetic::div_mod::{lemma_fundamental_div_mod, lemma_fundamental_div_mod_converse};
use vstd::arithmetic::power2::{lemma2_to64, lemma_pow2_strictly_increases, lemma_pow2_unfold, pow2};

/// True when bit `i` of `x` is set, reading `x` in two's complement.
pub open spec fn bit_set(x: i32, i: u32) -> bool
    recommends
        i < 32,
{
    x & (1i32 << i) != 0
}

/// The QuadKey digit drawn from bit `i` of the column index `tx` and of the
/// top-left-origin row index `fy`: the column bit contributes 1, the row
/// bit contributes 2, so the digit is one of 0, 1, 2, 3.
pub open spec fn quad_digit(tx: i32, fy: i32, i: u32) -> int {
    (if bit_set(tx, i) {
        1int
    } else {
        0int
    }) + (if bit_set(fy, i) {
        2int
    } else {
        0int
    })
}

/// The decimal character for one QuadKey digit.
pub open spec fn digit_char(d: int) -> char
    recommends
        d <= 3,
{
    if d == 0 {
        '0'
    } else if d == 1 {
        '1'
    } else if d == 2 {
        '2'
    } else {
        '3'
    }
}

/// The row index flipped from the TMS bottom-left origin to the top-left
/// origin used by Google/XYZ numbering and by QuadKeys.
pub open spec fn flipped_row(ty: i32, zoom: u32) -> int {
    pow2(zoom as nat) - 1 - ty
}

/// The full QuadKey of a tile whose column index is `tx` and whose
/// top-left-origin row index is `fy`: `zoom` digits, the one for bit
/// `zoom - 1` first.
pub open spec fn quad_key(tx: i32, fy: i32, zoom: u32) -> Seq<char>
    recommends
        zoom <= 32,
{
    Seq::new(zoom as nat, |j: int| digit_char(quad_digit(tx, fy, (zoom - 1 - j) as u32)))
}

/// Bit `i` of the half of a nonnegative index is bit `i + 1` of the index.
proof fn lemma_half_bit(x: i32, i: u32)
    requires
        0 <= x,
        i < 31,
    ensures
        bit_set((x / 2) as i32, i) == bit_set(x, (i + 1) as u32),
{
    assert((((x / 2) as i32) & (1i32 << i) != 0) == (x & (1i32 << ((i + 1) as u32)) != 0))
        by (bit_vector)
        requires
            0 <= x,
            i < 31,
    ;
}

/// Halving a TMS row while dropping one zoom level halves the
/// top-left-origin row.
proof fn lemma_flipped_row_half(ty: i32, zoom: u32)
    requires
        1 <= zoom <= 31,
        0 <= ty < pow2(zoom as nat),
    ensures
        flipped_row((ty / 2) as i32, (zoom - 1) as u32) == flipped_row(ty, zoom) / 2,
{
    let p = pow2((zoom - 1) as nat) as int;
    lemma_pow2_unfold(zoom as nat);
    let q = ty as int / 2;
    let r = ty as int % 2;
    lemma_fundamental_div_mod(ty as int, 2);
    lemma_fundamental_div_mod_converse(2 * p - 1 - ty, 2, p - 1 - q, 1 - r);
}

/// A tile's QuadKey begins with its parent's key: halving both tile indices
/// and dropping one zoom level drops exactly the last digit of the key.
pub proof fn lemma_quad_key_parent_prefix(tx: i32, ty: i32, zoom: u32)
    requires
        1 <= zoom <= 31,
        0 <= tx,
        0 <= ty < pow2(zoom as nat),
    ensures
        quad_key(
            (tx / 2) as i32,
            flipped_row((ty / 2) as i32, (zoom - 1) as u32) as i32,
            (zoom - 1) as u32,
        ) == quad_key(tx, flipped_row(ty, zoom) as i32, zoom).take(zoom - 1),
{
    lemma2_to64();
    if zoom < 31 {
        lemma_pow2_strictly_increases(zoom as nat, 31);
    }
    lemma_flipped_row_half(ty, zoom);
    let fy: i32 = flipped_row(ty, zoom) as i32;
    let fyp: i32 = flipped_row((ty / 2) as i32, (zoom - 1) as u32) as i32;
    let txp: i32 = (tx / 2) as i32;
    let parent = quad_key(txp, fyp, (zoom - 1) as u32);
    let child = quad_key(tx, fy, zoom);
    assert forall|j: int| 0 <= j < zoom - 1 implies parent[j] == child[j] by {
        let i: u32 = (zoom - 2 - j) as u32;
        lemma_half_bit(tx, i);
        lemma_half_bit(fy, i);
    }
    assert(parent =~= child.take(zoom - 1));
}

} // verus!
