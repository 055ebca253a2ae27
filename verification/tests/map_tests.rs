use ev_control::map_canvas::{compose_map, MapImage, Rgb, TILE_SIZE};
use ev_control::map_tiles::{
    map_refresh_due, prefetch_offsets, tile_coord, tile_file_name, tile_url, TileCache, TileKey, MAP_ZOOM,
};

fn solid(w: u32, h: u32, v: u8) -> MapImage {
    MapImage::filled(w, h, Rgb { r: v, g: v, b: v })
}

fn pixel(img: &MapImage, x: u32, y: u32) -> Rgb {
    img.pixels[(y * img.width + x) as usize]
}

#[test]
fn filled_image() {
    let img = solid(3, 2, 7);
    assert_eq!(img.pixels.len(), 6);
    assert!(img.pixels.iter().all(|p| *p == Rgb { r: 7, g: 7, b: 7 }));
}

#[test]
fn paste_clips_to_the_canvas() {
    let mut canvas = solid(4, 3, 0);
    let mut tile = solid(2, 2, 0);
    tile.pixels = vec![
        Rgb { r: 1, g: 0, b: 0 },
        Rgb { r: 2, g: 0, b: 0 },
        Rgb { r: 3, g: 0, b: 0 },
        Rgb { r: 4, g: 0, b: 0 },
    ];
    canvas.paste(&tile, 3, -1);
    assert_eq!(pixel(&canvas, 3, 0).r, 3);
    assert_eq!(pixel(&canvas, 2, 0).r, 0);
    assert_eq!(pixel(&canvas, 3, 1).r, 0);
    canvas.paste(&tile, -5, 0);
    assert!(canvas.pixels.iter().filter(|p| p.r != 0).count() == 1);
    canvas.paste(&tile, 1, 1);
    assert_eq!(pixel(&canvas, 1, 1).r, 1);
    assert_eq!(pixel(&canvas, 2, 1).r, 2);
    assert_eq!(pixel(&canvas, 1, 2).r, 3);
    assert_eq!(pixel(&canvas, 2, 2).r, 4);
}

#[test]
fn composed_map_centres_the_vehicle() {
    let mut tiles: Vec<Option<MapImage>> = Vec::new();
    for k in 0..9u8 {
        tiles.push(Some(solid(256, 256, 10 * (k + 1))));
    }
    let mut middle = solid(256, 256, 50);
    middle.pixels[(40 * 256 + 30) as usize] = Rgb { r: 1, g: 2, b: 3 };
    tiles[4] = Some(middle);
    let img = compose_map(100, 80, 30, 40, &tiles);
    assert_eq!((img.width, img.height), (100, 80));
    assert_eq!(pixel(&img, 50, 40), Rgb { r: 1, g: 2, b: 3 });
    // The vehicle sits 40 pixels down its tile and the picture is 80 high,
    // so the top row is the middle row of tiles: the top-left corner comes
    // from the tile to the left (grid position 3).
    assert_eq!(pixel(&img, 0, 0).r, 40);
    // The middle tile starts at column 50 - 30 = 20 and reaches past the
    // right edge and the bottom.
    assert_eq!(pixel(&img, 19, 79).r, 40);
    assert_eq!(pixel(&img, 20, 0).r, 50);
    assert_eq!(pixel(&img, 99, 79).r, 50);
    assert_eq!(TILE_SIZE, 256);
}

#[test]
fn composed_map_keeps_background_where_tiles_are_missing() {
    let tiles: Vec<Option<MapImage>> = (0..9).map(|_| None).collect();
    let img = compose_map(5, 4, 0, 0, &tiles);
    assert!(img.pixels.iter().all(|p| *p == Rgb { r: 200, g: 200, b: 200 }));
    assert_eq!(img.pixels.len(), 20);
}

#[test]
fn tile_names_and_addresses() {
    let k = TileKey { zoom: 17, x: 30208, y: 53955 };
    assert_eq!(tile_file_name(k), "17_30208_53955_.png");
    assert_eq!(tile_url(k), "https://tile.openstreetmap.org/17/30208/53955.png");
    assert_eq!(tile_file_name(TileKey { zoom: 0, x: 0, y: 9 }), "0_0_9_.png");
}

#[test]
fn tile_coordinates_wrap_like_the_panel() {
    assert_eq!(tile_coord(10, -2), 8);
    assert_eq!(tile_coord(10, 1), 11);
    assert_eq!(tile_coord(0, -1), u32::MAX);
    assert_eq!(tile_coord(u32::MAX, 1), 0);
}

#[test]
fn prefetch_ring_has_sixteen_tiles() {
    let offs = prefetch_offsets();
    assert_eq!(offs.len(), 16);
    assert_eq!(offs[0], (-2, -2));
    assert_eq!(offs[5], (-2, -1));
    assert_eq!(offs[6], (2, -1));
    assert_eq!(offs[15], (2, 2));
    assert!(offs.iter().all(|&(dx, dy)| dx.abs() == 2 || dy.abs() == 2));
}

#[test]
fn map_refresh_timing() {
    assert!(map_refresh_due(0, 0, false));
    assert!(!map_refresh_due(500, 0, true));
    assert!(map_refresh_due(501, 0, true));
}

#[test]
fn tile_cache_read_after_write() {
    let mut cache = TileCache::new();
    assert_eq!(cache.zoom(), MAP_ZOOM);
    let a = cache.key(1, 2);
    let b = cache.key(2, 1);
    assert!(cache.get(a).is_none());
    cache.insert(a, solid(1, 1, 5));
    cache.insert(b, solid(1, 1, 6));
    assert_eq!(cache.get(a).unwrap().pixels[0].r, 5);
    assert_eq!(cache.get(b).unwrap().pixels[0].r, 6);
    cache.insert(a, solid(1, 1, 9));
    assert_eq!(cache.get(a).unwrap().pixels[0].r, 9);
    assert_eq!(cache.get(b).unwrap().pixels[0].r, 6);
    assert!(cache.get(cache.key(9, 9)).is_none());
}

#[test]
fn tile_files_round_trip_through_png() {
    let mut cache = TileCache::new();
    let a = cache.key(3, 4);
    let mut img = solid(3, 2, 0);
    for (i, p) in img.pixels.iter_mut().enumerate() {
        *p = Rgb { r: i as u8, g: 10 * i as u8, b: 255 - i as u8 };
    }
    cache.insert(a, img.duplicate());
    let png = cache.png_of(a).expect("encodes");
    assert_eq!(&png[1..4], b"PNG");
    let b = cache.key(5, 6);
    assert!(cache.load(b, &png));
    let back = cache.get(b).unwrap();
    assert_eq!((back.width, back.height), (3, 2));
    assert_eq!(back.pixels, img.pixels);
}

#[test]
fn tile_files_that_are_not_images_are_refused() {
    let mut cache = TileCache::new();
    let a = cache.key(1, 1);
    assert!(!cache.load(a, b"not an image"));
    assert!(cache.get(a).is_none());
    assert!(cache.png_of(a).is_none());
}
