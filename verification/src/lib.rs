//! A TMS global spherical-Mercator tile pyramid: the integer tile arithmetic
//! of a slippy-map tile stack, verified end to end.
//!
//! The pyramid is parameterized by the pixel edge length of one square tile
//! (conventionally 256). At zoom level `z` the full raster is
//! `tile_size * 2^z` pixels square and holds `2^z x 2^z` tiles, indexed in the
//! TMS convention with tile `(0, 0)` at the bottom-left. This crate covers
//! construction, raster sizing, tile pixel bounds, the flip to Google/XYZ
//! row numbering, and the Microsoft QuadKey encoding of a tile address.
//! The continuous (floating-point) projection between geographic, projected
//! and pixel coordinates lives outside the verified core.

pub mod pyramid;
pub mod quadkey;

pub use pyramid::GlobalMercator;
