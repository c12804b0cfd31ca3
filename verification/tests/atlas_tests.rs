use smitten::atlas::{blit_glyph, cell_origin, ATLAS_HEIGHT, ATLAS_WIDTH};

#[test]
fn cells_run_sixteen_per_row() {
    assert_eq!(cell_origin(0), (0, 0));
    assert_eq!(cell_origin(1), (64, 0));
    assert_eq!(cell_origin(15), (960, 0));
    assert_eq!(cell_origin(16), (0, 64));
    assert_eq!(cell_origin(17), (64, 64));
    assert_eq!(cell_origin(95), (960, 320));
}

#[test]
fn blitting_writes_white_with_coverage_alpha() {
    let mut image = vec![0u8; ATLAS_WIDTH * ATLAS_HEIGHT * 4];
    let raster = vec![10u8, 20, 30, 40];
    blit_glyph(&mut image, 64, 0, 2, 2, &raster);
    let idx = |col: usize, row: usize| (row * ATLAS_WIDTH + col) * 4;
    assert_eq!(&image[idx(64, 0)..idx(64, 0) + 4], &[255, 255, 255, 10]);
    assert_eq!(&image[idx(65, 0)..idx(65, 0) + 4], &[255, 255, 255, 20]);
    assert_eq!(&image[idx(64, 1)..idx(64, 1) + 4], &[255, 255, 255, 30]);
    assert_eq!(&image[idx(65, 1)..idx(65, 1) + 4], &[255, 255, 255, 40]);
    // neighbours keep their bytes
    assert_eq!(&image[idx(63, 0)..idx(63, 0) + 4], &[0, 0, 0, 0]);
    assert_eq!(&image[idx(66, 0)..idx(66, 0) + 4], &[0, 0, 0, 0]);
    assert_eq!(&image[idx(64, 2)..idx(64, 2) + 4], &[0, 0, 0, 0]);
}

#[test]
fn blitting_at_the_last_cell_stays_in_range() {
    let mut image = vec![0u8; ATLAS_WIDTH * ATLAS_HEIGHT * 4];
    let raster = vec![7u8; 64 * 64];
    let (x, y) = cell_origin(95);
    blit_glyph(&mut image, x, y, 64, 64, &raster);
    let idx = |col: usize, row: usize| (row * ATLAS_WIDTH + col) * 4;
    assert_eq!(&image[idx(1023, 383)..idx(1023, 383) + 4], &[255, 255, 255, 7]);
}
