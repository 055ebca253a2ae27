//! Map tiles: where a tile is kept on disk and fetched from, which tiles
//! surround the vehicle, and the cache of tiles already loaded.

use vstd::prelude::*;
use crate::map_canvas::{MapImage, ImageView, Rgb, image_wf};
use crate::text::{decimal, push_decimal};
use std::collections::HashMap;
use vstd::arithmetic::div_mod::lemma_fundamental_div_mod_converse;

verus! {

broadcast use vstd::std_specs::hash::group_hash_axioms;

/// Zoom level of the map tiles.
pub const MAP_ZOOM: u32 = 17;

/// A tile: zoom level and column and row at that zoom.
#[derive(Clone, Copy, Debug, PartialEq, Eq, Structural)]
pub struct TileKey {
    pub zoom: u32,
    pub x: u32,
    pub y: u32,
}

/// File name of a tile in the tile cache directory: `{zoom}_{x}_{y}_.png`.
pub open spec fn tile_file_name_spec(k: TileKey) -> Seq<char> {
    decimal(k.zoom as nat) + seq!['_'] + decimal(k.x as nat) + seq!['_'] + decimal(k.y as nat) + "_.png"@
}

/// Address of a tile on the OpenStreetMap tile server.
pub open spec fn tile_url_spec(k: TileKey) -> Seq<char> {
    "https://tile.openstreetmap.org/"@ + decimal(k.zoom as nat) + seq!['/'] + decimal(k.x as nat) + seq!['/']
        + decimal(k.y as nat) + ".png"@
}

/// File name of a tile in the tile cache directory.
pub fn tile_file_name(k: TileKey) -> (name: String)
    ensures
        name@ == tile_file_name_spec(k),
{
    proof {
        reveal_strlit("_");
    }
    let mut s = String::new();
    push_decimal(&mut s, k.zoom as u64);
    s.append("_");
    push_decimal(&mut s, k.x as u64);
    s.append("_");
    push_decimal(&mut s, k.y as u64);
    s.append("_.png");
    s
}

/// Address of a tile on the tile server.
pub fn tile_url(k: TileKey) -> (url: String)
    ensures
        url@ == tile_url_spec(k),
{
    proof {
        reveal_strlit("/");
    }
    let mut s = String::new();
    s.append("https://tile.openstreetmap.org/");
    push_decimal(&mut s, k.zoom as u64);
    s.append("/");
    push_decimal(&mut s, k.x as u64);
    s.append("/");
    push_decimal(&mut s, k.y as u64);
    s.append(".png");
    s
}

/// The tile index `base + d` as the panel computes it: through 32-bit
/// signed arithmetic, so that it wraps round modulo 2^32.
pub open spec fn tile_coord_spec(base: u32, d: int) -> u32 {
    ((base as int + d) % 0x1_0000_0000int) as u32
}

/// The inputs for which that 32-bit signed addition does not overflow.
pub open spec fn tile_coord_fits(base: u32, d: int) -> bool {
    base <= i32::MAX ==> base + d <= i32::MAX
}

/// Column or row `d` tiles away from `base`.
pub fn tile_coord(base: u32, d: i32) -> (c: u32)
    requires
        -2 <= d <= 2,
        tile_coord_fits(base, d as int),
    ensures
        c == tile_coord_spec(base, d as int),
{
    let v: i64 = base as i64 + d as i64;
    if v < 0 {
        (v + 0x1_0000_0000i64) as u32
    } else if v > 0xffff_ffffi64 {
        (v - 0x1_0000_0000i64) as u32
    } else {
        v as u32
    }
}

/// Offset `(dx, dy)` of position `i` of the 5 by 5 square of tiles round
/// the vehicle, row by row.
pub open spec fn square_offset(i: int) -> (i32, i32) {
    ((i % 5 - 2) as i32, (i / 5 - 2) as i32)
}

/// The offset lies outside the 3 by 3 grid.
pub open spec fn outside_grid(o: (i32, i32)) -> bool {
    !(-1 <= o.0 <= 1 && -1 <= o.1 <= 1)
}

/// The first `i` positions of the 5 by 5 square, row by row, without those
/// of the 3 by 3 grid.
pub open spec fn ring_upto(i: nat) -> Seq<(i32, i32)>
    decreases i,
{
    if i == 0 {
        Seq::empty()
    } else {
        let o = square_offset(i - 1);
        ring_upto((i - 1) as nat) + (if outside_grid(o) { seq![o] } else { Seq::empty() })
    }
}

/// Offsets of the ring of tiles two tiles away from the vehicle, row by
/// row: fetched ahead so that they are ready when the vehicle moves.
pub fn prefetch_offsets() -> (offs: Vec<(i32, i32)>)
    ensures
        offs@ == ring_upto(25),
        offs@.len() == 16,
{
    let mut offs: Vec<(i32, i32)> = Vec::new();
    let mut i: usize = 0;
    while i < 25
        invariant
            i <= 25,
            offs@ == ring_upto(i as nat),
        decreases 25 - i,
    {
        let dx: i32 = (i % 5) as i32 - 2;
        let dy: i32 = (i / 5) as i32 - 2;
        assert((dx, dy) == square_offset(i as int));
        if !(-1 <= dx && dx <= 1 && -1 <= dy && dy <= 1) {
            offs.push((dx, dy));
        }
        assert(offs@ =~= ring_upto((i + 1) as nat));
        i = i + 1;
    }
    proof {
        reveal_with_fuel(ring_upto, 26);
    }
    assert(ring_upto(25).len() == 16);
    offs
}

/// The image that `image::load_from_memory` decodes from `bytes`,
/// converted to 8-bit RGB; none when the bytes are not an image it reads.
pub uninterp spec fn decoded_image(bytes: Seq<u8>) -> Option<ImageView>;

/// The PNG file that the `image` crate writes for an RGB image; none when
/// it cannot write one.
pub uninterp spec fn png_encoding(img: ImageView) -> Option<Seq<u8>>;

pub open spec fn image_option_view(img: Option<MapImage>) -> Option<ImageView> {
    match img {
        Some(m) => Some(m@),
        None => None,
    }
}

/// Decodes an image file held in memory through `image::load_from_memory`
/// and `DynamicImage::to_rgb8`. The contract names the result, and states
/// what the crate's `ImageBuffer` guarantees of it: one pixel per position,
/// with a byte buffer whose size fits in a machine word.
#[verifier::external_body]
fn decode_image(bytes: &[u8]) -> (img: Option<MapImage>)
    ensures
        image_option_view(img) == decoded_image(bytes@),
        img matches Some(m) ==> image_wf(m@) && 3 * (m.width as int) * (m.height as int) <= usize::MAX,
{
    match image::load_from_memory(bytes) {
        Ok(decoded) => {
            let rgb = decoded.to_rgb8();
            let pixels = rgb.pixels().map(|p| Rgb { r: p[0], g: p[1], b: p[2] }).collect();
            Some(MapImage { width: rgb.width(), height: rgb.height(), pixels })
        },
        Err(_) => None,
    }
}

/// An image small enough that decoding its PNG file stays well within the
/// `image` crate's default allocation limit of 512 MiB.
pub open spec fn png_round_trip_size(v: ImageView) -> bool {
    &&& 1 <= v.width && 1 <= v.height
    &&& 3 * (v.width as int) * (v.height as int) <= 0x800_0000
}

/// Encodes an RGB image as PNG through `image::RgbImage::from_raw` and
/// `ImageBuffer::write_to` with `ImageFormat::Png`. The contract names the
/// bytes written; none when the crate refuses the buffer or the encoding.
/// It also states that PNG is lossless: the crate writes an 8-bit RGB file,
/// which `image::load_from_memory` reads back as the same 8-bit RGB image
/// when the image is well within the decoder's default allocation limit.
#[verifier::external_body]
fn encode_png(img: &MapImage) -> (bytes: Option<Vec<u8>>)
    ensures
        match bytes {
            Some(b) => png_encoding(img@) == Some(b@),
            None => png_encoding(img@) is None,
        },
        bytes matches Some(b) ==> (image_wf(img@) && png_round_trip_size(img@) ==> decoded_image(b@) == Some(img@)),
{
    let raw: Vec<u8> = img.pixels.iter().flat_map(|p| [p.r, p.g, p.b]).collect();
    let buffer = image::RgbImage::from_raw(img.width, img.height, raw)?;
    let mut out = std::io::Cursor::new(Vec::new());
    match buffer.write_to(&mut out, image::ImageFormat::Png) {
        Ok(()) => Some(out.into_inner()),
        Err(_) => None,
    }
}

/// The map picture is redrawn at most this often, in milliseconds.
pub const MAP_REFRESH_MS: u64 = 500;

/// Whether the map picture is redrawn at `now`: when more than
/// `MAP_REFRESH_MS` have passed since the last drawing, or when there is
/// no picture yet.
pub fn map_refresh_due(now: u64, last: u64, has_picture: bool) -> (due: bool)
    ensures
        due == (crate::keys::elapsed(now, last) > MAP_REFRESH_MS || !has_picture),
{
    let since: u64 = if now >= last { now - last } else { 0 };
    since > MAP_REFRESH_MS || !has_picture
}

/// The number under which the cache keeps a tile: zoom, column and row
/// side by side, 32 bits each.
pub open spec fn tile_code(k: TileKey) -> int {
    (k.zoom as int) * 0x1_0000_0000_0000_0000 + (k.x as int) * 0x1_0000_0000 + (k.y as int)
}

fn code_of(k: TileKey) -> (c: u128)
    ensures
        c as int == tile_code(k),
{
    (k.zoom as u128) * 0x1_0000_0000_0000_0000u128 + (k.x as u128) * 0x1_0000_0000u128 + (k.y as u128)
}

/// Different tiles have different numbers.
proof fn lemma_tile_code_injective(a: TileKey, b: TileKey)
    requires
        tile_code(a) == tile_code(b),
    ensures
        a == b,
{
    let s = 0x1_0000_0000int;
    let qa = (a.zoom as int) * s + (a.x as int);
    let qb = (b.zoom as int) * s + (b.x as int);
    assert(tile_code(a) == qa * s + (a.y as int));
    assert(tile_code(b) == qb * s + (b.y as int));
    lemma_fundamental_div_mod_converse(tile_code(a), s, qa, a.y as int);
    lemma_fundamental_div_mod_converse(tile_code(b), s, qb, b.y as int);
    lemma_fundamental_div_mod_converse(qa, s, a.zoom as int, a.x as int);
    lemma_fundamental_div_mod_converse(qb, s, b.zoom as int, b.x as int);
}

/// The tiles loaded so far, each under its key.
pub struct TileCache {
    zoom: u32,
    tiles: HashMap<u128, MapImage>,
}

impl View for TileCache {
    type V = Map<TileKey, ImageView>;

    closed spec fn view(&self) -> Map<TileKey, ImageView> {
        Map::new(
            |k: TileKey| self.tiles@.contains_key(tile_code(k) as u128),
            |k: TileKey| self.tiles@[tile_code(k) as u128]@,
        )
    }
}

impl TileCache {
    /// Zoom level of the tiles.
    pub closed spec fn zoom_spec(&self) -> u32 {
        self.zoom
    }

    /// An empty cache for tiles at `MAP_ZOOM`.
    pub fn new() -> (c: TileCache)
        ensures
            c.zoom_spec() == MAP_ZOOM,
            c@ == Map::<TileKey, ImageView>::empty(),
    {
        let c = TileCache { zoom: MAP_ZOOM, tiles: HashMap::new() };
        assert(c@ =~= Map::<TileKey, ImageView>::empty());
        c
    }

    /// The zoom level.
    pub fn zoom(&self) -> (z: u32)
        ensures
            z == self.zoom_spec(),
    {
        self.zoom
    }

    /// The key of the tile in column `x` and row `y` at the cache's zoom.
    pub fn key(&self, x: u32, y: u32) -> (k: TileKey)
        ensures
            k == (TileKey { zoom: self.zoom_spec(), x, y }),
    {
        TileKey { zoom: self.zoom, x, y }
    }

    /// The image stored for `k`, if any.
    pub fn get(&self, k: TileKey) -> (img: Option<&MapImage>)
        ensures
            match img {
                Some(m) => self@.contains_key(k) && self@[k] == m@,
                None => !self@.contains_key(k),
            },
    {
        let c = code_of(k);
        self.tiles.get(&c)
    }

    /// Decodes a tile file (read from disk or downloaded) and stores the
    /// image under `k`; returns whether the bytes held an image.
    pub fn load(&mut self, k: TileKey, bytes: &[u8]) -> (loaded: bool)
        ensures
            loaded == decoded_image(bytes@) is Some,
            final(self).zoom_spec() == old(self).zoom_spec(),
            final(self)@ == (match decoded_image(bytes@) {
                Some(v) => old(self)@.insert(k, v),
                None => old(self)@,
            }),
    {
        match decode_image(bytes) {
            Some(img) => {
                self.insert(k, img);
                true
            },
            None => false,
        }
    }

    /// The PNG file of the tile stored under `k`, for the tile cache on
    /// disk; none when no tile is stored there or it cannot be encoded.
    pub fn png_of(&self, k: TileKey) -> (bytes: Option<Vec<u8>>)
        ensures
            self@.contains_key(k) ==> match bytes {
                Some(b) => image_wf(self@[k]) && png_encoding(self@[k]) == Some(b@),
                None => !image_wf(self@[k]) || png_encoding(self@[k]) is None,
            },
            bytes matches Some(b) ==> (png_round_trip_size(self@[k]) ==> decoded_image(b@) == Some(self@[k])),
            !self@.contains_key(k) ==> bytes is None,
    {
        match self.get(k) {
            Some(img) => {
                proof {
                    assert((img.width as int) * (img.height as int) <= 0xffff_ffff * 0xffff_ffff) by (nonlinear_arith)
                        requires img.width <= 0xffff_ffff, img.height <= 0xffff_ffff;
                }
                let n: u64 = (img.width as u64) * (img.height as u64);
                if img.pixels.len() as u64 == n {
                    encode_png(img)
                } else {
                    None
                }
            },
            None => None,
        }
    }

    /// Stores `img` under `k`, replacing what was stored there.
    pub fn insert(&mut self, k: TileKey, img: MapImage)
        ensures
            final(self).zoom_spec() == old(self).zoom_spec(),
            final(self)@ == old(self)@.insert(k, img@),
    {
        let ghost v = img@;
        let c = code_of(k);
        self.tiles.insert(c, img);
        proof {
            assert forall|q: TileKey| #[trigger] self@.contains_key(q) == old(self)@.insert(k, v).contains_key(q) by {
                if tile_code(q) == tile_code(k) {
                    lemma_tile_code_injective(q, k);
                }
            }
            assert forall|q: TileKey| self@.contains_key(q) implies #[trigger] self@[q] == old(self)@.insert(k, v)[q] by {
                if tile_code(q) == tile_code(k) {
                    lemma_tile_code_injective(q, k);
                }
            }
            assert(self@ =~= old(self)@.insert(k, v));
        }
    }
}

/// A read gives back what was stored last: after storing an image under `k`,
/// `k` yields it and every other key yields what it yielded before; a tile
/// loaded from a file yields the image decoded from that file.
pub proof fn lemma_cache_read_after_write(before: Map<TileKey, ImageView>, k: TileKey, v: ImageView, q: TileKey)
    ensures
        before.insert(k, v).contains_key(k) && before.insert(k, v)[k] == v,
        q != k ==> (before.insert(k, v).contains_key(q) == before.contains_key(q)),
        q != k && before.contains_key(q) ==> before.insert(k, v)[q] == before[q],
{
}

/// A tile written to the disk cache reads back as the same image: loading
/// the PNG file of a stored tile under any key stores that very image.
pub proof fn lemma_disk_cache_round_trip(cache: Map<TileKey, ImageView>, k: TileKey, b: Seq<u8>, k2: TileKey)
    requires
        cache.contains_key(k),
        decoded_image(b) == Some(cache[k]),
    ensures
        ({
            let after = match decoded_image(b) {
                Some(v) => cache.insert(k2, v),
                None => cache,
            };
            after.contains_key(k2) && after[k2] == cache[k]
        }),
{
}

} // verus!
