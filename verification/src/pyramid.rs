//! The TMS global-mercator tile pyramid: construction and the integer tile
//! arithmetic. The floating-point projection between geographic, projected
//! and pixel coordinates is not part of the verified core.

use vstd::prelude::*;

verus! {

use vstd::arithmetic::power2::{lemma2_to64, lemma_pow2_pos, lemma_pow2_strictly_increases, pow2};
use vstd::bits::lemma_u32_shl_is_mul;
use vstd::string::StringExecFns;
use crate::quadkey::{digit_char, flipped_row, quad_digit, quad_key};

/// A TMS global spherical-Mercator tile pyramid, parameterized by the pixel
/// edge length of one square tile (conventionally 256). At zoom `z` the
/// raster is `tile_size * 2^z` pixels square and holds `2^z x 2^z` tiles,
/// with tile `(0, 0)` at the bottom-left.
#[derive(Debug, Clone, Copy)]
pub struct GlobalMercator {
    tile_size: u32,
}

impl GlobalMercator {
    /// The pixel edge length of one tile.
    pub closed spec fn spec_tile_size(&self) -> u32 {
        self.tile_size
    }

    /// A pyramid is well formed when its tile edge is positive; a zero edge
    /// would collapse every raster to nothing.
    pub open spec fn wf(&self) -> bool {
        1 <= self.spec_tile_size()
    }

    /// Builds the pyramid for tiles of `tile_size` pixels on a side.
    pub fn new(tile_size: u32) -> (r: GlobalMercator)
        requires
            1 <= tile_size,
        ensures
            r.spec_tile_size() == tile_size,
            r.wf(),
    {
        GlobalMercator { tile_size }
    }

    /// The pixel edge length this pyramid was built with.
    #[verifier::when_used_as_spec(spec_tile_size)]
    pub fn tile_size(&self) -> (r: u32)
        ensures
            r == self.spec_tile_size(),
    {
        self.tile_size
    }

    /// The pixel edge length of the whole raster at `zoom`: the raster is
    /// `tile_size * 2^zoom` pixels square.
    pub fn map_size(&self, zoom: u32) -> (r: u32)
        requires
            zoom < 32,
            self.spec_tile_size() * pow2(zoom as nat) <= u32::MAX,
        ensures
            r == self.spec_tile_size() * pow2(zoom as nat),
    {
        proof {
            lemma_u32_shl_is_mul(self.tile_size, zoom);
        }
        self.tile_size << zoom
    }

    /// Pixel coordinates of a tile's corners in the pyramid's raster:
    /// the bottom-left corner `(tx * tile_size, ty * tile_size)` and the
    /// top-right corner `((tx + 1) * tile_size, (ty + 1) * tile_size)`,
    /// returned as `(min px, min py, max px, max py)`.
    pub fn tile_pixel_bounds(&self, tx: i32, ty: i32) -> (r: (i32, i32, i32, i32))
        requires
            self.spec_tile_size() <= i32::MAX,
            tx < i32::MAX,
            ty < i32::MAX,
            i32::MIN <= tx * self.spec_tile_size(),
            (tx + 1) * self.spec_tile_size() <= i32::MAX,
            i32::MIN <= ty * self.spec_tile_size(),
            (ty + 1) * self.spec_tile_size() <= i32::MAX,
        ensures
            r.0 == tx * self.spec_tile_size(),
            r.1 == ty * self.spec_tile_size(),
            r.2 == (tx + 1) * self.spec_tile_size(),
            r.3 == (ty + 1) * self.spec_tile_size(),
    {
        let ts: i32 = self.tile_size as i32;
        proof {
            lemma_tile_span_bounds(tx as int, ts as int);
            lemma_tile_span_bounds(ty as int, ts as int);
        }
        (tx * ts, ty * ts, (tx + 1) * ts, (ty + 1) * ts)
    }

    /// TMS tile coordinates to Google/XYZ tile coordinates: the column is
    /// unchanged and the row origin moves from the bottom-left to the
    /// top-left of the extent, so the row becomes `2^zoom - 1 - ty`.
    pub fn google_tile(&self, tx: i32, ty: i32, zoom: u32) -> (r: (i32, i32))
        requires
            zoom <= 31,
            0 <= ty || flipped_row(ty, zoom) <= i32::MAX,
        ensures
            r.0 == tx,
            r.1 == flipped_row(ty, zoom),
    {
        (tx, flip_row(ty, zoom))
    }

    /// The Microsoft QuadKey of a TMS tile: exactly `zoom` base-4 digit
    /// characters, most significant first. The row is first flipped to the
    /// top-left origin; digit `j` of the key then takes 1 from bit
    /// `zoom - 1 - j` of the column and 2 from the same bit of the
    /// flipped row.
    pub fn quad_tree(&self, tx: i32, ty: i32, zoom: u32) -> (r: String)
        requires
            zoom <= 31,
            0 <= ty || flipped_row(ty, zoom) <= i32::MAX,
        ensures
            r@ == quad_key(tx, flipped_row(ty, zoom) as i32, zoom),
            r@.len() == zoom,
            forall|j: int|
                0 <= j < zoom ==> (r@[j] == '0' || r@[j] == '1' || r@[j] == '2' || r@[j] == '3'),
    {
        let fy: i32 = flip_row(ty, zoom);
        let mut key: String = String::new();
        let mut i: u32 = zoom;
        while i > 0
            invariant
                i <= zoom,
                zoom <= 31,
                fy == flipped_row(ty, zoom),
                key@.len() == zoom - i,
                forall|j: int|
                    0 <= j < zoom - i ==> key@[j] == digit_char(
                        quad_digit(tx, fy, (zoom - 1 - j) as u32),
                    ),
            decreases i,
        {
            let bit: u32 = i - 1;
            let mask: i32 = 1i32 << bit;
            let mut digit: u8 = 0;
            if tx & mask != 0 {
                digit = digit + 1;
            }
            if fy & mask != 0 {
                digit = digit + 2;
            }
            proof {
                reveal_strlit("0");
                reveal_strlit("1");
                reveal_strlit("2");
                reveal_strlit("3");
            }
            if digit == 0 {
                key.append("0");
            } else if digit == 1 {
                key.append("1");
            } else if digit == 2 {
                key.append("2");
            } else {
                key.append("3");
            }
            i = i - 1;
        }
        proof {
            assert(key@ =~= quad_key(tx, fy, zoom));
        }
        key
    }
}

/// The top-left-origin row index for a TMS row `ty`, as an `i32`.
fn flip_row(ty: i32, zoom: u32) -> (r: i32)
    requires
        zoom <= 31,
        0 <= ty || flipped_row(ty, zoom) <= i32::MAX,
    ensures
        r == flipped_row(ty, zoom),
{
    proof {
        lemma_pow2_pos(zoom as nat);
        if zoom < 31 {
            lemma_pow2_strictly_increases(zoom as nat, 31);
        }
        lemma2_to64();
    }
    let m: u32 = 1u32 << zoom;
    proof {
        lemma_u32_shl_is_mul(1u32, zoom);
    }
    (m - 1) as i32 - ty
}

/// Both multiples of the tile edge that bound a tile's span lie between the
/// given products, so neither leaves the representable range.
proof fn lemma_tile_span_bounds(t: int, ts: int)
    requires
        0 <= ts,
        i32::MIN <= t * ts,
        (t + 1) * ts <= i32::MAX,
    ensures
        t * ts <= i32::MAX,
        i32::MIN <= (t + 1) * ts,
{
    assert(t * ts <= (t + 1) * ts && (t + 1) * ts - ts == t * ts) by (nonlinear_arith)
        requires
            0 <= ts,
    ;
}

impl Default for GlobalMercator {
    /// The conventional pyramid, with 256-pixel tiles.
    fn default() -> (r: GlobalMercator)
        ensures
            r.spec_tile_size() == 256,
            r.wf(),
    {
        GlobalMercator::new(256)
    }
}

} // verus!
