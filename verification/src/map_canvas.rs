//! The map picture: RGB images, pasting a tile into the picture with
//! clipping, and the picture composed from the tiles round the vehicle.

use vstd::prelude::*;
use vstd::arithmetic::div_mod::lemma_fundamental_div_mod_converse;

verus! {

/// Side of a map tile in pixels.
pub const TILE_SIZE: i32 = 256;

/// One RGB pixel.
#[derive(Clone, Copy, Debug, PartialEq, Eq)]
pub struct Rgb {
    pub r: u8,
    pub g: u8,
    pub b: u8,
}

/// The colour of the map where no tile is drawn.
pub open spec fn background() -> Rgb {
    Rgb { r: 200, g: 200, b: 200 }
}

/// An RGB image: `width * height` pixels, row by row.
pub struct MapImage {
    pub width: u32,
    pub height: u32,
    pub pixels: Vec<Rgb>,
}

/// An image as plain values.
pub struct ImageView {
    pub width: u32,
    pub height: u32,
    pub pixels: Seq<Rgb>,
}

impl MapImage {
    /// A copy of the image.
    pub fn duplicate(&self) -> (copy: MapImage)
        ensures
            copy@ == self@,
    {
        let pixels = self.pixels.clone();
        assert(pixels@ =~= self.pixels@);
        MapImage { width: self.width, height: self.height, pixels }
    }
}

impl View for MapImage {
    type V = ImageView;

    open spec fn view(&self) -> ImageView {
        ImageView { width: self.width, height: self.height, pixels: self.pixels@ }
    }
}

/// The image holds exactly one pixel per position.
pub open spec fn image_wf(v: ImageView) -> bool {
    v.pixels.len() == (v.width as int) * (v.height as int)
}

/// Pixel `i` of the picture lies in column `i % w`, row `i / w`; it takes the
/// tile's pixel when the tile, placed with its corner at `(px, py)`, covers
/// that position, and keeps its colour otherwise.
pub open spec fn paste_spec(canvas: Seq<Rgb>, w: int, tile: ImageView, px: int, py: int) -> Seq<Rgb> {
    Seq::new(canvas.len(), |i: int| {
        let x = i % w;
        let y = i / w;
        let tw = tile.width as int;
        let th = tile.height as int;
        if px <= x < px + tw && py <= y < py + th {
            tile.pixels[(y - py) * tw + (x - px)]
        } else {
            canvas[i]
        }
    })
}

/// Pasting as the panel does it: it compares positions with the picture's
/// width and height taken as 32-bit signed integers, so a picture wider or
/// taller than `i32::MAX` gets nothing drawn.
pub open spec fn paste_clipped(canvas: Seq<Rgb>, w: u32, h: u32, tile: ImageView, px: int, py: int) -> Seq<Rgb> {
    if w <= i32::MAX && h <= i32::MAX {
        paste_spec(canvas, w as int, tile, px, py)
    } else {
        canvas
    }
}

/// Placements for which the pixel arithmetic of the panel stays within
/// 32-bit signed integers.
pub open spec fn paste_fits(tile: ImageView, px: int, py: int) -> bool {
    &&& tile.width <= (i32::MAX as int) + 1 && tile.height <= (i32::MAX as int) + 1
    &&& px + tile.width <= (i32::MAX as int) + 1
    &&& py + tile.height <= (i32::MAX as int) + 1
}

proof fn lemma_tile_index(tx: int, ty: int, tw: int, th: int)
    requires
        0 <= tx < tw,
        0 <= ty < th,
    ensures
        0 <= ty * tw + tx < tw * th,
{
    assert(0 <= ty * tw + tx < tw * th) by (nonlinear_arith)
        requires 0 <= tx < tw, 0 <= ty < th;
}

impl MapImage {
    /// A `width` by `height` image in one colour.
    pub fn filled(width: u32, height: u32, color: Rgb) -> (img: MapImage)
        requires
            3 * (width as int) * (height as int) <= usize::MAX,
        ensures
            img@ == (ImageView {
                width,
                height,
                pixels: Seq::new(((width as int) * (height as int)) as nat, |i: int| color),
            }),
    {
        proof {
            assert((width as int) * (height as int) <= 3 * (width as int) * (height as int)) by (nonlinear_arith)
                requires 0 <= width, 0 <= height;
        }
        let n = (width as usize) * (height as usize);
        let mut pixels: Vec<Rgb> = Vec::new();
        let mut i: usize = 0;
        while i < n
            invariant
                i <= n,
                pixels@.len() == i,
                forall|j: int| 0 <= j < i ==> #[trigger] pixels@[j] == color,
            decreases n - i,
        {
            pixels.push(color);
            i = i + 1;
        }
        let img = MapImage { width, height, pixels };
        assert(img@.pixels =~= Seq::new(((width as int) * (height as int)) as nat, |i: int| color));
        img
    }

    /// Paints `tile` with its top-left corner at `(px, py)`, clipped to the
    /// image.
    pub fn paste(&mut self, tile: &MapImage, px: i32, py: i32)
        requires
            image_wf(old(self)@),
            image_wf(tile@),
            paste_fits(tile@, px as int, py as int),
        ensures
            final(self)@ == (ImageView {
                pixels: paste_clipped(old(self)@.pixels, old(self)@.width, old(self)@.height, tile@, px as int, py as int),
                ..old(self)@
            }),
    {
        let ghost before = self.pixels@;
        let ghost h0 = self.height as int;
        let w = self.width as usize;
        let n = self.pixels.len();
        let tw = tile.width as usize;
        let th = tile.height as usize;
        let tl = tile.pixels.len();
        if self.width > 0x7fff_ffff || self.height > 0x7fff_ffff {
            return;
        }
        if w == 0 {
            assert(before.len() == 0) by (nonlinear_arith)
                requires before.len() == (w as int) * h0, w == 0;
            assert(self.pixels@ =~= paste_spec(before, w as int, tile@, px as int, py as int));
            return;
        }
        let mut i: usize = 0;
        let mut x: usize = 0;
        let mut y: usize = 0;
        while i < n
            invariant
                n == self.pixels@.len(),
                n == before.len(),
                w == self.width,
                w > 0,
                tw == tile.width,
                th == tile.height,
                tl == tile.pixels@.len(),
                image_wf(tile@),
                self.width == old(self).width,
                self.height == old(self).height,
                before == old(self).pixels@,
                i == y * w + x,
                x < w,
                y <= self.height,
                n == (w as int) * (self.height as int),
                i <= n,
                forall|j: int| 0 <= j < i ==> #[trigger] self.pixels@[j] == paste_spec(before, w as int, tile@, px as int, py as int)[j],
                forall|j: int| i <= j < n ==> #[trigger] self.pixels@[j] == before[j],
            decreases n - i,
        {
            proof {
                lemma_fundamental_div_mod_converse(i as int, w as int, y as int, x as int);
            }
            let tx: i64 = x as i64 - px as i64;
            let ty: i64 = y as i64 - py as i64;
            if 0 <= tx && tx < tw as i64 && 0 <= ty && ty < th as i64 {
                proof {
                    lemma_tile_index(tx as int, ty as int, tw as int, th as int);
                }
                let tyu = ty as usize;
                let txu = tx as usize;
                assert(tyu * tw + txu < tl);
                let ti = tyu * tw + txu;
                let p = tile.pixels[ti];
                self.pixels.set(i, p);
            }
            proof {
                assert(self.pixels@[i as int] == paste_spec(before, w as int, tile@, px as int, py as int)[i as int]);
            }
            i = i + 1;
            if x + 1 == w {
                proof {
                    assert(y * w + x + 1 == (y + 1) * w) by (nonlinear_arith)
                        requires x + 1 == w;
                    assert(y + 1 <= self.height) by (nonlinear_arith)
                        requires (y + 1) * w <= n, n == w * self.height, w > 0;
                }
                x = 0;
                y = y + 1;
            } else {
                x = x + 1;
            }
        }
        assert(self.pixels@ =~= paste_spec(before, w as int, tile@, px as int, py as int));
    }
}

/// Column of tile `k` of the 3 by 3 grid round the vehicle, from -1 to 1;
/// the tiles go row by row.
pub open spec fn grid_dx(k: int) -> int {
    k % 3 - 1
}

/// Row of tile `k` of the 3 by 3 grid round the vehicle, from -1 to 1.
pub open spec fn grid_dy(k: int) -> int {
    k / 3 - 1
}

/// Where a tile's corner lands in the picture: tiles are `TILE_SIZE` apart,
/// shifted so that the vehicle's position within its tile is at the centre.
pub open spec fn paste_origin(d: int, offset_in_tile: int, half: int) -> int {
    d * (TILE_SIZE as int) - offset_in_tile + half
}

pub open spec fn fits_i32(v: int) -> bool {
    i32::MIN <= v <= i32::MAX
}

/// The origin arithmetic of the panel stays within 32-bit signed integers.
pub open spec fn origins_fit(offset_in_tile: int, half: int) -> bool {
    forall|d: int| -1 <= d <= 1 ==> {
        &&& fits_i32(#[trigger] (d * (TILE_SIZE as int)) - offset_in_tile)
        &&& fits_i32(paste_origin(d, offset_in_tile, half))
    }
}

pub open spec fn tile_views(tiles: Seq<Option<MapImage>>) -> Seq<Option<ImageView>> {
    tiles.map_values(|t: Option<MapImage>| match t {
        Some(img) => Some(img@),
        None => None,
    })
}

/// The map picture after the first `k` tiles of the grid are pasted onto
/// the background, in grid order.
pub open spec fn compose_spec(w: u32, h: u32, px: int, py: int, tiles: Seq<Option<ImageView>>, k: nat) -> Seq<Rgb>
    decreases k,
{
    if k == 0 {
        Seq::new(((w as int) * (h as int)) as nat, |i: int| background())
    } else {
        let prev = compose_spec(w, h, px, py, tiles, (k - 1) as nat);
        match tiles[k - 1] {
            Some(t) => paste_clipped(
                prev,
                w,
                h,
                t,
                paste_origin(grid_dx(k - 1), px, (w / 2) as int),
                paste_origin(grid_dy(k - 1), py, (h / 2) as int),
            ),
            None => prev,
        }
    }
}

/// The tiles of the grid can be pasted.
pub open spec fn tiles_fit(w: u32, h: u32, px: int, py: int, tiles: Seq<Option<ImageView>>) -> bool {
    forall|k: int| 0 <= k < tiles.len() ==> match #[trigger] tiles[k] {
        Some(t) => image_wf(t) && paste_fits(
            t,
            paste_origin(grid_dx(k), px, (w / 2) as int),
            paste_origin(grid_dy(k), py, (h / 2) as int),
        ),
        None => true,
    }
}

/// The map picture of `width` by `height` pixels: the background, then the
/// nine tiles round the vehicle (absent ones left out) in grid order, placed
/// so that the vehicle's position `(px_in_tile, py_in_tile)` within the
/// middle tile is at the centre.
pub fn compose_map(width: u32, height: u32, px_in_tile: i32, py_in_tile: i32, tiles: &Vec<Option<MapImage>>) -> (img: MapImage)
    requires
        tiles@.len() == 9,
        3 * (width as int) * (height as int) <= usize::MAX,
        origins_fit(px_in_tile as int, (width / 2) as int),
        origins_fit(py_in_tile as int, (height / 2) as int),
        tiles_fit(width, height, px_in_tile as int, py_in_tile as int, tile_views(tiles@)),
    ensures
        img@ == (ImageView {
            width,
            height,
            pixels: compose_spec(width, height, px_in_tile as int, py_in_tile as int, tile_views(tiles@), 9),
        }),
{
    let mut img = MapImage::filled(width, height, Rgb { r: 200, g: 200, b: 200 });
    let half_w = (width / 2) as i32;
    let half_h = (height / 2) as i32;
    let ghost views = tile_views(tiles@);
    assert(img@.pixels =~= compose_spec(width, height, px_in_tile as int, py_in_tile as int, views, 0));
    let mut k: usize = 0;
    while k < 9
        invariant
            k <= 9,
            tiles@.len() == 9,
            views == tile_views(tiles@),
            half_w == width / 2,
            half_h == height / 2,
            img.width == width,
            img.height == height,
            origins_fit(px_in_tile as int, (width / 2) as int),
            origins_fit(py_in_tile as int, (height / 2) as int),
            tiles_fit(width, height, px_in_tile as int, py_in_tile as int, views),
            image_wf(img@),
            img@.pixels == compose_spec(width, height, px_in_tile as int, py_in_tile as int, views, k as nat),
        decreases 9 - k,
    {
        let dx: i32 = (k % 3) as i32 - 1;
        let dy: i32 = (k / 3) as i32 - 1;
        assert(fits_i32(dx * (TILE_SIZE as int) - px_in_tile));
        assert(fits_i32(dy * (TILE_SIZE as int) - py_in_tile));
        assert(fits_i32(paste_origin(dx as int, px_in_tile as int, (width / 2) as int)));
        assert(fits_i32(paste_origin(dy as int, py_in_tile as int, (height / 2) as int)));
        let ox = dx * TILE_SIZE - px_in_tile + half_w;
        let oy = dy * TILE_SIZE - py_in_tile + half_h;
        match &tiles[k] {
            Some(tile) => {
                assert(views[k as int] == Some(tile@));
                img.paste(tile, ox, oy);
            },
            None => {
                assert(views[k as int] is None);
            },
        }
        k = k + 1;
    }
    img
}

proof fn lemma_compose_len(w: u32, h: u32, px: int, py: int, tiles: Seq<Option<ImageView>>, k: nat)
    requires
        k <= tiles.len(),
    ensures
        compose_spec(w, h, px, py, tiles, k).len() == (w as int) * (h as int),
    decreases k,
{
    if k > 0 {
        lemma_compose_len(w, h, px, py, tiles, (k - 1) as nat);
    }
}

/// A grid tile after the middle one leaves the centre of the picture as it
/// was: only the middle tile covers the centre.
proof fn lemma_other_tile_misses_centre(w: u32, h: u32, px: int, py: int, tiles: Seq<Option<ImageView>>, k: nat, c: int)
    requires
        5 <= k <= 8,
        tiles.len() == 9,
        w > 0,
        h > 0,
        w <= i32::MAX,
        h <= i32::MAX,
        0 <= px < TILE_SIZE,
        0 <= py < TILE_SIZE,
        c == (h / 2) as int * (w as int) + (w / 2) as int,
        0 <= c < (w as int) * (h as int),
        c % (w as int) == (w / 2) as int,
        c / (w as int) == (h / 2) as int,
        forall|j: int| 0 <= j < 9 ==> match #[trigger] tiles[j] {
            Some(t) => t.width == TILE_SIZE && t.height == TILE_SIZE,
            None => true,
        },
    ensures
        compose_spec(w, h, px, py, tiles, (k + 1) as nat)[c] == compose_spec(w, h, px, py, tiles, k)[c],
{
    lemma_compose_len(w, h, px, py, tiles, k);
    let prev = compose_spec(w, h, px, py, tiles, k);
    assert(grid_dx(k as int) == k % 3 - 1);
    assert(grid_dy(k as int) == k / 3 - 1);
    match tiles[k as int] {
        Some(t) => {
            let ox = paste_origin(grid_dx(k as int), px, (w / 2) as int);
            let oy = paste_origin(grid_dy(k as int), py, (h / 2) as int);
            let cx = (w / 2) as int;
            let cy = (h / 2) as int;
            let tw = t.width as int;
            let th = t.height as int;
            assert(!(ox <= cx && cx < ox + tw && oy <= cy && cy < oy + th));
        },
        None => {},
    }
}

/// The vehicle's position within its tile appears at the centre of the map
/// picture: the centre pixel is the middle tile's pixel at that position,
/// when all tiles have the usual size.
pub proof fn lemma_vehicle_at_centre(w: u32, h: u32, px: int, py: int, tiles: Seq<Option<ImageView>>, t: ImageView)
    requires
        tiles.len() == 9,
        w > 0,
        h > 0,
        w <= i32::MAX,
        h <= i32::MAX,
        0 <= px < TILE_SIZE,
        0 <= py < TILE_SIZE,
        tiles[4] == Some(t),
        forall|j: int| 0 <= j < 9 ==> match #[trigger] tiles[j] {
            Some(tt) => tt.width == TILE_SIZE && tt.height == TILE_SIZE && image_wf(tt),
            None => true,
        },
    ensures
        ({
            let c = (h / 2) as int * (w as int) + (w / 2) as int;
            &&& 0 <= c < compose_spec(w, h, px, py, tiles, 9).len()
            &&& compose_spec(w, h, px, py, tiles, 9)[c] == t.pixels[py * (TILE_SIZE as int) + px]
        }),
{
    let wi = w as int;
    let hi = h as int;
    let cx = (w / 2) as int;
    let cy = (h / 2) as int;
    let c = cy * wi + cx;
    lemma_fundamental_div_mod_converse(c, wi, cy, cx);
    assert(0 <= c < wi * hi) by (nonlinear_arith)
        requires c == cy * wi + cx, 0 <= cx < wi, 0 <= cy < hi;
    lemma_compose_len(w, h, px, py, tiles, 4);
    lemma_compose_len(w, h, px, py, tiles, 9);
    let s4 = compose_spec(w, h, px, py, tiles, 4);
    assert(grid_dx(4) == 0 && grid_dy(4) == 0);
    assert(compose_spec(w, h, px, py, tiles, 5) == paste_clipped(s4, w, h, t, paste_origin(0, px, (w / 2) as int), paste_origin(0, py, (h / 2) as int)));
    assert(compose_spec(w, h, px, py, tiles, 5)[c] == t.pixels[py * (TILE_SIZE as int) + px]);
    assert forall|j: int| 0 <= j < 9 implies match #[trigger] tiles[j] {
        Some(tt) => tt.width == TILE_SIZE && tt.height == TILE_SIZE,
        None => true,
    } by {
        assert(match tiles[j] {
            Some(tt) => tt.width == TILE_SIZE && tt.height == TILE_SIZE && image_wf(tt),
            None => true,
        });
    }
    lemma_other_tile_misses_centre(w, h, px, py, tiles, 5, c);
    lemma_other_tile_misses_centre(w, h, px, py, tiles, 6, c);
    lemma_other_tile_misses_centre(w, h, px, py, tiles, 7, c);
    lemma_other_tile_misses_centre(w, h, px, py, tiles, 8, c);
}

/// Corner of grid tile `k` in the picture, written out: tile `k` lies in
/// grid column `k % 3 - 1` and grid row `k / 3 - 1` round the vehicle's tile
/// (row -1 is north, column -1 is west), tiles `TILE_SIZE` apart, shifted
/// so that the vehicle's position in its tile is at the picture's centre.
pub open spec fn tile_corner_x(k: int, px: int, w: u32) -> int {
    (k % 3 - 1) * 256 - px + (w / 2) as int
}

pub open spec fn tile_corner_y(k: int, py: int, h: u32) -> int {
    (k / 3 - 1) * 256 - py + (h / 2) as int
}

/// Pasting grid tile `k` onto the picture: the pixel in column `x`, row `y`
/// takes tile `k`'s pixel when the tile, at its corner, covers it, and keeps
/// its colour otherwise.
proof fn lemma_compose_step(w: u32, h: u32, px: int, py: int, tiles: Seq<Option<ImageView>>, k: nat, x: int, y: int)
    requires
        k < 9,
        tiles.len() == 9,
        0 < w <= i32::MAX,
        0 < h <= i32::MAX,
        0 <= x < w,
        0 <= y < h,
    ensures
        ({
            let c = y * (w as int) + x;
            let prev = compose_spec(w, h, px, py, tiles, k);
            let next = compose_spec(w, h, px, py, tiles, (k + 1) as nat);
            &&& 0 <= c < (w as int) * (h as int)
            &&& match tiles[k as int] {
                Some(t) => {
                    let ox = tile_corner_x(k as int, px, w);
                    let oy = tile_corner_y(k as int, py, h);
                    if ox <= x < ox + t.width && oy <= y < oy + t.height {
                        next[c] == t.pixels[(y - oy) * (t.width as int) + (x - ox)]
                    } else {
                        next[c] == prev[c]
                    }
                },
                None => next[c] == prev[c],
            }
        }),
{
    let wi = w as int;
    let c = y * wi + x;
    lemma_fundamental_div_mod_converse(c, wi, y, x);
    assert(0 <= c < wi * (h as int)) by (nonlinear_arith)
        requires c == y * wi + x, 0 <= x < wi, 0 <= y < h;
    lemma_compose_len(w, h, px, py, tiles, k);
    assert(paste_origin(grid_dx(k as int), px, (w / 2) as int) == tile_corner_x(k as int, px, w));
    assert(paste_origin(grid_dy(k as int), py, (h / 2) as int) == tile_corner_y(k as int, py, h));
}

/// Tiles go to their compass places: the pixels just north of the vehicle's
/// tile, in its columns, come from the tile north of it (grid position 1),
/// and those just east of it, in its rows, from the tile east of it (grid
/// position 5), with every tile of the usual size.
pub proof fn lemma_neighbours_in_place(
    w: u32,
    h: u32,
    px: int,
    py: int,
    tiles: Seq<Option<ImageView>>,
    x: int,
    y: int,
)
    requires
        tiles.len() == 9,
        0 < w <= i32::MAX,
        0 < h <= i32::MAX,
        0 <= px < TILE_SIZE,
        0 <= py < TILE_SIZE,
        0 <= x < w,
        0 <= y < h,
        forall|j: int| 0 <= j < 9 ==> match #[trigger] tiles[j] {
            Some(tt) => tt.width == TILE_SIZE && tt.height == TILE_SIZE,
            None => true,
        },
    ensures
        ({
            let c = y * (w as int) + x;
            let mx = (w / 2) as int - px;
            let my = (h / 2) as int - py;
            &&& (mx <= x < mx + 256 && my - 256 <= y < my && tiles[1] is Some) ==>
                compose_spec(w, h, px, py, tiles, 9)[c] == tiles[1]->0.pixels[(y - (my - 256)) * 256 + (x - mx)]
            &&& (mx + 256 <= x < mx + 512 && my <= y < my + 256 && tiles[5] is Some) ==>
                compose_spec(w, h, px, py, tiles, 9)[c] == tiles[5]->0.pixels[(y - my) * 256 + (x - (mx + 256))]
        }),
{
    let c = y * (w as int) + x;
    let mx = (w / 2) as int - px;
    let my = (h / 2) as int - py;
    lemma_compose_step(w, h, px, py, tiles, 0, x, y);
    lemma_compose_step(w, h, px, py, tiles, 1, x, y);
    lemma_compose_step(w, h, px, py, tiles, 2, x, y);
    lemma_compose_step(w, h, px, py, tiles, 3, x, y);
    lemma_compose_step(w, h, px, py, tiles, 4, x, y);
    lemma_compose_step(w, h, px, py, tiles, 5, x, y);
    lemma_compose_step(w, h, px, py, tiles, 6, x, y);
    lemma_compose_step(w, h, px, py, tiles, 7, x, y);
    lemma_compose_step(w, h, px, py, tiles, 8, x, y);
    assert(tiles[0] matches Some(t) ==> t.width == 256 && t.height == 256);
    assert(tiles[1] matches Some(t) ==> t.width == 256 && t.height == 256);
    assert(tiles[2] matches Some(t) ==> t.width == 256 && t.height == 256);
    assert(tiles[3] matches Some(t) ==> t.width == 256 && t.height == 256);
    assert(tiles[4] matches Some(t) ==> t.width == 256 && t.height == 256);
    assert(tiles[5] matches Some(t) ==> t.width == 256 && t.height == 256);
    assert(tiles[6] matches Some(t) ==> t.width == 256 && t.height == 256);
    assert(tiles[7] matches Some(t) ==> t.width == 256 && t.height == 256);
    assert(tiles[8] matches Some(t) ==> t.width == 256 && t.height == 256);
}

} // verus!
