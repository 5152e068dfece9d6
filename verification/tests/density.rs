use ascii_raster::density::bucket;
use ascii_raster::density::get_char;
use ascii_raster::density::scale_lookup;
use ascii_raster::density::shade;
use ascii_raster::density::SCALE_LEN;

#[test]
fn scale_runs_from_lightest_to_heaviest() {
    let expected = [' ', '.', ':', '-', '=', '+', '*', '#', '%', '@'];
    assert_eq!(SCALE_LEN, 10);
    for (index, c) in expected.iter().enumerate() {
        assert_eq!(scale_lookup(index as u8), *c);
    }
}

#[test]
fn bucket_boundaries() {
    assert_eq!(bucket(0), 0);
    assert_eq!(bucket(25), 0);
    assert_eq!(bucket(26), 1);
    assert_eq!(bucket(51), 1);
    assert_eq!(bucket(52), 2);
    assert_eq!(bucket(127), 4);
    assert_eq!(bucket(128), 5);
    assert_eq!(bucket(230), 8);
    assert_eq!(bucket(231), 9);
    assert_eq!(bucket(255), 9);
}

#[test]
fn bucket_is_the_scaled_intensity_rounded_down() {
    for mean in 0..=255u8 {
        let scaled = (mean as f64 / 256.0 * 10.0) as u8;
        assert_eq!(bucket(mean), scaled);
        assert!(bucket(mean) < 10);
    }
}

#[test]
fn get_char_is_for_a_light_background() {
    assert_eq!(get_char(0), '@');
    assert_eq!(get_char(255), ' ');
    assert_eq!(get_char(128), '=');
    assert_eq!(get_char(26), '%');
    for mean in 0..=255u8 {
        assert_eq!(get_char(mean), shade(mean, false));
        assert_eq!(get_char(mean), scale_lookup(9 - bucket(mean)));
    }
}

#[test]
fn shade_on_a_dark_background_follows_the_bucket() {
    assert_eq!(shade(0, true), ' ');
    assert_eq!(shade(255, true), '@');
    assert_eq!(shade(128, true), '+');
    for mean in 0..=255u8 {
        assert_eq!(shade(mean, true), scale_lookup(bucket(mean)));
    }
}

#[test]
fn shades_for_the_two_backgrounds_mirror() {
    let scale = [' ', '.', ':', '-', '=', '+', '*', '#', '%', '@'];
    for mean in 0..=255u8 {
        let dark = scale.iter().position(|c| *c == shade(mean, true)).unwrap();
        let light = scale.iter().position(|c| *c == shade(mean, false)).unwrap();
        assert_eq!(dark + light, 9);
    }
}
