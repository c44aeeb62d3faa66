use global_mercator::GlobalMercator;

#[test]
fn test_default() {
    assert_eq!(GlobalMercator::default().tile_size(), 256);
}

#[test]
fn test_new() {
    assert_eq!(GlobalMercator::new(256).tile_size(), 256);
}

#[test]
fn test_map_size() {
    let mercator = GlobalMercator::default();
    assert_eq!(mercator.map_size(0), 256);
    assert_eq!(mercator.map_size(3), 2048);
    assert_eq!(GlobalMercator::new(512).map_size(2), 2048);
}

#[test]
fn test_tile_pixel_bounds() {
    let mercator = GlobalMercator::default();
    assert_eq!(mercator.tile_pixel_bounds(0, 0), (0, 0, 256, 256));
    assert_eq!(mercator.tile_pixel_bounds(2, 3), (512, 768, 768, 1024));
    assert_eq!(mercator.tile_pixel_bounds(-2, -1), (-512, -256, -256, 0));
}

#[test]
fn test_google_tile() {
    let mercator = GlobalMercator::default();
    assert_eq!(mercator.google_tile(0, 0, 0), (0, 0));
    assert_eq!(mercator.google_tile(3, 5, 3), (3, 2));
    assert_eq!(mercator.google_tile(17, 0, 5), (17, 31));
}

#[test]
fn test_quad_tree_quadrants() {
    let mercator = GlobalMercator::default();
    // at zoom 1 the four TMS tiles map to the four one-digit keys
    assert_eq!(mercator.quad_tree(0, 1, 1), "0");
    assert_eq!(mercator.quad_tree(1, 1, 1), "1");
    assert_eq!(mercator.quad_tree(0, 0, 1), "2");
    assert_eq!(mercator.quad_tree(1, 0, 1), "3");
}

#[test]
fn test_quad_tree_empty_at_zoom_zero() {
    let mercator = GlobalMercator::default();
    assert_eq!(mercator.quad_tree(0, 0, 0), "");
}

#[test]
fn test_quad_tree_length_and_digits() {
    let mercator = GlobalMercator::default();
    for zoom in 0u32..=25 {
        let key = mercator.quad_tree(123_456, 654_321, zoom);
        assert_eq!(key.len(), zoom as usize);
        assert!(key.chars().all(|c| c == '0' || c == '1' || c == '2' || c == '3'));
    }
}

#[test]
fn test_quad_tree_prefix() {
    // the key of a tile's parent (half the indices, one zoom level up)
    // is the key of the tile without its last digit
    let mercator = GlobalMercator::default();
    let mut tx: i32 = 12_345_678;
    let mut ty: i32 = 9_876_543;
    let mut zoom: u32 = 24;
    let mut key = mercator.quad_tree(tx, ty, zoom);
    while zoom > 0 {
        tx /= 2;
        ty /= 2;
        zoom -= 1;
        let parent = mercator.quad_tree(tx, ty, zoom);
        key.pop();
        assert_eq!(parent, key);
        key = parent;
    }
}
