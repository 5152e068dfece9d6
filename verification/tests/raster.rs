use ascii_raster::density::shade;
use ascii_raster::luma::GrayImage;
use ascii_raster::raster::mean_of_block;
use ascii_raster::raster::pixel_each;
use ascii_raster::raster::prepare_image_details;
use ascii_raster::raster::rasterize;
use ascii_raster::raster::ImageDetails;
use ascii_raster::raster::RasterError;

const SCALE: [char; 10] = [' ', '.', ':', '-', '=', '+', '*', '#', '%', '@'];

fn uniform(width: u32, height: u32, value: u8) -> GrayImage {
    let data = vec![value; (width * height) as usize];
    GrayImage::from_raw(width, height, data).unwrap()
}

/// Sample at `(x, y)` is `(7 * x + 13 * y) % 256`.
fn gradient(width: u32, height: u32) -> GrayImage {
    let mut data = Vec::new();
    for y in 0..height {
        for x in 0..width {
            data.push(((7 * x + 13 * y) % 256) as u8);
        }
    }
    GrayImage::from_raw(width, height, data).unwrap()
}

fn position(c: char) -> usize {
    SCALE.iter().position(|s| *s == c).unwrap()
}

#[test]
fn white_image_on_light_background_is_blank() {
    let img = uniform(16, 16, 255);
    assert_eq!(rasterize(&img, 8, 16, false), Ok("  \n".to_string()));
}

#[test]
fn black_image_on_light_background_is_heavy() {
    let img = uniform(16, 16, 0);
    assert_eq!(rasterize(&img, 8, 16, false), Ok("@@\n".to_string()));
}

#[test]
fn black_image_on_dark_background_is_blank() {
    let img = uniform(16, 16, 0);
    assert_eq!(rasterize(&img, 8, 16, true), Ok("  \n".to_string()));
}

#[test]
fn white_image_on_dark_background_is_heavy() {
    let img = uniform(16, 16, 255);
    assert_eq!(rasterize(&img, 8, 16, true), Ok("@@\n".to_string()));
}

#[test]
fn zero_block_width_is_refused() {
    let img = uniform(16, 16, 7);
    assert_eq!(rasterize(&img, 0, 16, false), Err(RasterError::InvalidParameter));
}

#[test]
fn zero_block_height_is_refused() {
    let img = uniform(16, 16, 7);
    assert_eq!(rasterize(&img, 8, 0, true), Err(RasterError::InvalidParameter));
}

#[test]
fn zero_block_is_refused_on_an_empty_image() {
    let img = GrayImage::from_raw(0, 0, Vec::new()).unwrap();
    assert_eq!(rasterize(&img, 0, 0, false), Err(RasterError::InvalidParameter));
}

#[test]
fn image_lower_than_a_block_gives_empty_text() {
    let img = uniform(16, 4, 200);
    assert_eq!(rasterize(&img, 8, 16, false), Ok(String::new()));
}

#[test]
fn image_narrower_than_a_block_gives_bare_newlines() {
    let img = uniform(4, 33, 200);
    assert_eq!(rasterize(&img, 8, 16, false), Ok("\n\n".to_string()));
}

#[test]
fn image_smaller_than_a_block_both_ways_gives_empty_text() {
    let img = uniform(3, 3, 200);
    assert_eq!(rasterize(&img, 8, 16, true), Ok(String::new()));
}

#[test]
fn empty_image_gives_empty_text() {
    let img = GrayImage::from_raw(0, 0, Vec::new()).unwrap();
    assert_eq!(rasterize(&img, 8, 16, false), Ok(String::new()));
}

#[test]
fn remainder_pixels_are_dropped() {
    let img = uniform(20, 35, 0);
    assert_eq!(rasterize(&img, 8, 16, false), Ok("@@\n@@\n".to_string()));
}

#[test]
fn every_line_has_one_character_per_block() {
    let img = gradient(37, 29);
    let text = rasterize(&img, 5, 4, false).unwrap();
    let lines: Vec<&str> = text.split('\n').collect();
    assert_eq!(lines.len(), 29 / 4 + 1);
    assert_eq!(lines[29 / 4], "");
    for line in &lines[..29 / 4] {
        assert_eq!(line.chars().count(), 37 / 5);
    }
    assert_eq!(text.chars().count(), (29 / 4) * (37 / 5 + 1));
}

#[test]
fn every_character_is_in_the_scale() {
    let img = gradient(40, 40);
    for dark in [false, true] {
        let text = rasterize(&img, 3, 7, dark).unwrap();
        for c in text.chars() {
            assert!(c == '\n' || SCALE.contains(&c));
        }
    }
}

#[test]
fn backgrounds_mirror_each_other() {
    let img = gradient(64, 48);
    let dark: Vec<char> = rasterize(&img, 4, 6, true).unwrap().chars().collect();
    let light: Vec<char> = rasterize(&img, 4, 6, false).unwrap().chars().collect();
    assert_eq!(dark.len(), light.len());
    let mut seen = [false; 10];
    for (d, l) in dark.iter().zip(light.iter()) {
        if *d == '\n' {
            assert_eq!(*l, '\n');
        } else {
            assert_eq!(position(*d) + position(*l), 9);
            seen[position(*d)] = true;
        }
    }
    assert!(seen.iter().filter(|s| **s).count() > 1);
}

#[test]
fn every_bucket_mirrors() {
    for index in 0..10u32 {
        let value = (index * 256 / 10 + 1) as u8;
        let img = uniform(2, 2, value);
        let dark = rasterize(&img, 2, 2, true).unwrap();
        let light = rasterize(&img, 2, 2, false).unwrap();
        let d = position(dark.chars().next().unwrap());
        let l = position(light.chars().next().unwrap());
        assert_eq!(d, index as usize);
        assert_eq!(d + l, 9);
    }
}

#[test]
fn rendering_twice_gives_the_same_text() {
    let img = gradient(50, 30);
    assert_eq!(rasterize(&img, 8, 16, false), rasterize(&img, 8, 16, false));
    assert_eq!(rasterize(&img, 8, 16, true), rasterize(&img, 8, 16, true));
}

#[test]
fn single_pixel_blocks_follow_rows_then_columns() {
    let data = vec![0, 26, 52, 255, 230, 128];
    let img = GrayImage::from_raw(3, 2, data).unwrap();
    assert_eq!(rasterize(&img, 1, 1, true), Ok(" .:\n@%+\n".to_string()));
    assert_eq!(rasterize(&img, 1, 1, false), Ok("@%#\n .=\n".to_string()));
}

#[test]
fn mean_is_rounded_down() {
    let img = GrayImage::from_raw(2, 1, vec![25, 26]).unwrap();
    let details = prepare_image_details(&img, 2, 1);
    assert_eq!(mean_of_block(&img, &details, 0, 0), 25);
    assert_eq!(rasterize(&img, 2, 1, true), Ok(" \n".to_string()));
    let img = GrayImage::from_raw(2, 2, vec![0, 0, 0, 3]).unwrap();
    let details = prepare_image_details(&img, 2, 2);
    assert_eq!(mean_of_block(&img, &details, 0, 0), 0);
}

#[test]
fn mean_covers_the_whole_block_and_nothing_else() {
    let data = vec![
        10, 20, 100, 100, //
        30, 40, 100, 100, //
        200, 200, 1, 2, //
        200, 200, 3, 4,
    ];
    let img = GrayImage::from_raw(4, 4, data).unwrap();
    let details = prepare_image_details(&img, 2, 2);
    assert_eq!(mean_of_block(&img, &details, 0, 0), 25);
    assert_eq!(mean_of_block(&img, &details, 0, 1), 100);
    assert_eq!(mean_of_block(&img, &details, 1, 0), 200);
    assert_eq!(mean_of_block(&img, &details, 1, 1), 2);
}

#[test]
fn tall_and_wide_blocks_are_not_transposed() {
    let data = vec![
        0, 0, 255, //
        0, 0, 255,
    ];
    let img = GrayImage::from_raw(3, 2, data).unwrap();
    assert_eq!(rasterize(&img, 1, 2, true), Ok("  @\n".to_string()));
    assert_eq!(rasterize(&img, 3, 1, true), Ok("-\n-\n".to_string()));
}

#[test]
fn details_hold_the_image_size_and_the_block_size() {
    let img = uniform(21, 13, 0);
    let details = prepare_image_details(&img, 8, 16);
    assert_eq!((details.w, details.h), (21, 13));
    assert_eq!((details.split_w, details.split_h), (8, 16));
    assert_eq!(img.dimensions(), (21, 13));
}

#[test]
fn an_area_smaller_than_the_image_can_be_rendered() {
    let img = gradient(10, 10);
    let details = ImageDetails { w: 4, h: 2, split_w: 2, split_h: 1 };
    let whole = rasterize(&img, 2, 1, false).unwrap();
    let part = pixel_each(&img, &details, false);
    let lines: Vec<&str> = whole.split('\n').collect();
    assert_eq!(part, format!("{}\n{}\n", &lines[0][..2], &lines[1][..2]));
}

#[test]
fn short_data_gives_no_image() {
    assert!(GrayImage::from_raw(4, 4, vec![0; 15]).is_none());
    assert!(GrayImage::from_raw(4, 4, vec![0; 16]).is_some());
    assert!(GrayImage::from_raw(4, 4, vec![0; 17]).is_some());
    assert!(GrayImage::from_raw(u32::MAX, u32::MAX, vec![0; 8]).is_none());
}

#[test]
fn surplus_data_is_ignored() {
    let img = GrayImage::from_raw(1, 1, vec![0, 255, 255]).unwrap();
    assert_eq!(img.dimensions(), (1, 1));
    assert_eq!(rasterize(&img, 1, 1, true), Ok(" \n".to_string()));
}

#[test]
fn samples_agree_with_the_image_buffer() {
    let buffer = image::GrayImage::from_fn(7, 5, |x, y| image::Luma([((x * 31 + y * 57) % 256) as u8]));
    let img = GrayImage::from_raw(7, 5, buffer.clone().into_raw()).unwrap();
    assert_eq!(img.dimensions(), buffer.dimensions());
    let text: Vec<char> = rasterize(&img, 1, 1, true).unwrap().chars().collect();
    assert_eq!(text.len(), 5 * 8);
    for y in 0..5u32 {
        for x in 0..7u32 {
            let sample = buffer.get_pixel(x, y).0[0];
            assert_eq!(text[(y * 8 + x) as usize], shade(sample, true));
        }
        assert_eq!(text[(y * 8 + 7) as usize], '\n');
    }
}
