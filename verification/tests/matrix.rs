use ascii_art::brightness::BrightnessMethod;
use ascii_art::matrix::{
    build_frame, get_ascii_matrix, get_brightness_matrix, get_pixel_matrix, Raster, CHANNELS,
    TARGET_HEIGHT, TARGET_WIDTH,
};

fn solid(rows: usize, columns: usize, pixel: [u8; 3]) -> Vec<Vec<[u8; 3]>> {
    vec![vec![pixel; columns]; rows]
}

fn assert_same_shape<A, B>(left: &Vec<Vec<A>>, right: &Vec<Vec<B>>) {
    assert_eq!(left.len(), right.len());
    for (a, b) in left.iter().zip(right.iter()) {
        assert_eq!(a.len(), b.len());
    }
}

#[test]
fn brightness_matrix_holds_the_brightness_of_each_pixel() {
    let pixels: Vec<Vec<[u8; 3]>> =
        vec![vec![[10, 200, 31], [0, 0, 0]], vec![[255, 255, 255], [255, 0, 0]]];
    assert_eq!(
        get_brightness_matrix(&pixels, &BrightnessMethod::Average),
        vec![vec![80u8, 0], vec![255, 85]]
    );
    assert_eq!(
        get_brightness_matrix(&pixels, &BrightnessMethod::MinMax),
        vec![vec![105u8, 0], vec![255, 127]]
    );
    assert_eq!(
        get_brightness_matrix(&pixels, &BrightnessMethod::Luminosity),
        vec![vec![148u8, 0], vec![255, 53]]
    );
}

#[test]
fn ascii_matrix_holds_the_glyph_of_each_brightness() {
    let levels: Vec<Vec<u8>> = vec![vec![0, 5, 128], vec![254, 255, 4]];
    assert_eq!(
        get_ascii_matrix(&levels, false),
        vec![vec!['`', '^', 'u'], vec!['B', '@', '`']]
    );
    assert_eq!(
        get_ascii_matrix(&levels, true),
        vec![vec!['@', '%', 'u'], vec!['`', '`', 'B']]
    );
}

#[test]
fn frame_of_one_pixel() {
    let pixels = solid(1, 1, [255, 255, 255]);
    let (levels, glyphs) = build_frame(&pixels, &BrightnessMethod::Average, false);
    assert_eq!(levels, vec![vec![255u8]]);
    assert_eq!(glyphs, vec![vec!['@']]);
    let (levels, glyphs) = build_frame(&pixels, &BrightnessMethod::Average, true);
    assert_eq!(levels, vec![vec![255u8]]);
    assert_eq!(glyphs, vec![vec!['`']]);
}

#[test]
fn frame_of_no_rows_is_empty() {
    let pixels: Vec<Vec<[u8; 3]>> = Vec::new();
    let (levels, glyphs) = build_frame(&pixels, &BrightnessMethod::Luminosity, false);
    assert!(levels.is_empty());
    assert!(glyphs.is_empty());
}

#[test]
fn frame_of_rows_without_columns_keeps_the_rows() {
    let pixels = solid(3, 0, [0, 0, 0]);
    let (levels, glyphs) = build_frame(&pixels, &BrightnessMethod::MinMax, true);
    assert_eq!(levels, vec![Vec::<u8>::new(); 3]);
    assert_eq!(glyphs, vec![Vec::<char>::new(); 3]);
}

#[test]
fn frame_keeps_the_dimensions_of_a_large_grid() {
    let mut pixels: Vec<Vec<[u8; 3]>> = Vec::new();
    for y in 0usize..300 {
        let mut row: Vec<[u8; 3]> = Vec::new();
        for x in 0usize..400 {
            row.push([(x % 256) as u8, (y % 256) as u8, ((x + y) % 256) as u8]);
        }
        pixels.push(row);
    }
    let (levels, glyphs) = build_frame(&pixels, &BrightnessMethod::Average, false);
    assert_same_shape(&levels, &pixels);
    assert_same_shape(&glyphs, &pixels);
    assert_eq!(levels[299][399], ((399 % 256 + 299 % 256 + 698 % 256) / 3) as u8);
}

#[test]
fn frame_keeps_the_shape_of_ragged_rows() {
    let pixels: Vec<Vec<[u8; 3]>> =
        vec![vec![[1, 2, 3]], Vec::new(), vec![[4, 5, 6], [7, 8, 9], [10, 11, 12]]];
    let (levels, glyphs) = build_frame(&pixels, &BrightnessMethod::Average, false);
    assert_same_shape(&levels, &pixels);
    assert_same_shape(&glyphs, &pixels);
    assert_eq!(levels, vec![vec![2u8], vec![], vec![5, 8, 11]]);
}

#[test]
fn building_a_frame_twice_gives_the_same_grids() {
    let pixels: Vec<Vec<[u8; 3]>> =
        vec![vec![[10, 200, 31], [9, 8, 7]], vec![[255, 0, 255], [33, 66, 99]]];
    for method in
        [BrightnessMethod::Average, BrightnessMethod::MinMax, BrightnessMethod::Luminosity].iter()
    {
        for invert in [false, true].iter() {
            let first = build_frame(&pixels, method, *invert);
            let second = build_frame(&pixels, method, *invert);
            assert_eq!(first, second);
        }
    }
}

#[test]
fn frame_is_the_two_matrices() {
    let pixels: Vec<Vec<[u8; 3]>> = vec![vec![[10, 200, 31], [9, 8, 7]]];
    let (levels, glyphs) = build_frame(&pixels, &BrightnessMethod::Luminosity, true);
    assert_eq!(levels, get_brightness_matrix(&pixels, &BrightnessMethod::Luminosity));
    assert_eq!(glyphs, get_ascii_matrix(&levels, true));
}

#[test]
fn identical_pixels_give_identical_glyphs() {
    let pixels = solid(2, 2, [90, 120, 30]);
    let (_, glyphs) = build_frame(&pixels, &BrightnessMethod::Average, false);
    assert_eq!(glyphs.len(), 2);
    for row in glyphs.iter() {
        assert_eq!(row.len(), 2);
        for glyph in row.iter() {
            assert_eq!(*glyph, glyphs[0][0]);
        }
    }
    assert_eq!(glyphs[0][0], '1');
}

#[test]
fn raster_yields_its_pixels_row_by_row() {
    let channels: Vec<u8> = vec![1, 2, 3, 4, 5, 6, 7, 8, 9, 10, 11, 12, 13, 14, 15, 16, 17, 18];
    let raster = Raster::from_raw(3, 2, channels).unwrap();
    assert_eq!(
        get_pixel_matrix(&raster),
        vec![
            vec![[1u8, 2, 3], [4, 5, 6], [7, 8, 9]],
            vec![[10u8, 11, 12], [13, 14, 15], [16, 17, 18]]
        ]
    );
}

#[test]
fn raster_of_one_column_has_one_pixel_in_each_row() {
    let raster = Raster::from_raw(1, 3, vec![1, 2, 3, 4, 5, 6, 7, 8, 9]).unwrap();
    assert_eq!(get_pixel_matrix(&raster), vec![vec![[1u8, 2, 3]], vec![[4, 5, 6]], vec![[7, 8, 9]]]);
}

#[test]
fn raster_ignores_channels_beyond_its_last_pixel() {
    let raster = Raster::from_raw(1, 1, vec![9, 8, 7, 6, 5]).unwrap();
    assert_eq!(get_pixel_matrix(&raster), vec![vec![[9u8, 8, 7]]]);
}

#[test]
fn raster_needs_every_channel_of_every_pixel() {
    assert_eq!(CHANNELS, 3);
    assert!(Raster::from_raw(2, 2, vec![0; 11]).is_none());
    assert!(Raster::from_raw(2, 2, vec![0; 12]).is_some());
    assert!(Raster::from_raw(1, 1, Vec::new()).is_none());
    assert!(Raster::from_raw(u32::MAX, u32::MAX, vec![0; 12]).is_none());
}

#[test]
fn raster_without_columns_yields_no_rows() {
    let raster = Raster::from_raw(0, 5, Vec::new()).unwrap();
    assert!(get_pixel_matrix(&raster).is_empty());
}

#[test]
fn raster_without_rows_yields_no_rows() {
    let raster = Raster::from_raw(5, 0, Vec::new()).unwrap();
    assert!(get_pixel_matrix(&raster).is_empty());
}

#[test]
fn target_size_is_fifty_by_forty() {
    assert_eq!(TARGET_WIDTH, 50);
    assert_eq!(TARGET_HEIGHT, 40);
}
