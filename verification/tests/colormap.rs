use image::{DynamicImage, GrayImage, RgbImage};
use macintosh_wallpaper::animation::colormap::{Color, Colormap, RawImage};
use macintosh_wallpaper::interpolate::Fraction;

fn table() -> Colormap {
    // Three columns, two rows.
    let bytes = vec![
        10, 20, 30, 40, 50, 60, 70, 80, 90, // row 0
        110, 120, 130, 140, 150, 160, 170, 180, 190, // row 1
    ];
    Colormap::new(DynamicImage::ImageRgb8(RgbImage::from_raw(3, 2, bytes).unwrap()))
}

fn deep(r: u16, g: u16, b: u16) -> Color {
    Color { r: r * 257, g: g * 257, b: b * 257 }
}

fn at(num: u64, den: u64) -> Fraction {
    Fraction::new(num, den).unwrap()
}

#[test]
fn table_keeps_the_pixels_of_the_image() {
    let map = table();
    assert_eq!(map.width, 3);
    assert_eq!(map.height, 2);
    assert_eq!(map.data.len(), 18);
    assert_eq!(&map.data[..3], &[10, 20, 30]);
    assert_eq!(&map.data[15..], &[170, 180, 190]);
}

#[test]
fn table_of_a_gray_image_has_three_channels() {
    let image = DynamicImage::ImageLuma8(GrayImage::from_raw(1, 2, vec![5, 200]).unwrap());
    let map = Colormap::new(image);
    assert_eq!(map.width, 1);
    assert_eq!(map.height, 2);
    assert_eq!(map.data, vec![5, 5, 5, 200, 200, 200]);
}

#[test]
fn columns_are_top_bottom_and_foreground() {
    let map = table();
    assert_eq!(map.get_background_top(at(0, 1)), deep(10, 20, 30));
    assert_eq!(map.get_background_bottom(at(0, 1)), deep(40, 50, 60));
    assert_eq!(map.get_foreground(at(0, 1)), deep(70, 80, 90));
}

#[test]
fn whole_row_is_not_blended() {
    let map = table();
    assert_eq!(map.get_background_top(at(1, 2)), deep(110, 120, 130));
    assert_eq!(map.get_foreground(at(2, 4)), deep(170, 180, 190));
}

#[test]
fn rows_are_blended_in_between() {
    let map = table();
    // A quarter of the way down is half way from row 0 to row 1.
    assert_eq!(map.get_background_top(at(1, 4)), deep(60, 70, 80));
    // An eighth of the way down is a quarter of the way from row 0 to row 1.
    assert_eq!(map.get_background_top(at(1, 8)), deep(35, 45, 55));
}

#[test]
fn last_row_blends_back_to_the_first() {
    let map = table();
    // Three quarters of the way down is half way from row 1 to row 0.
    assert_eq!(map.get_background_top(at(3, 4)), deep(60, 70, 80));
    // Seven eighths of the way down is three quarters of the way back.
    assert_eq!(map.get_background_bottom(at(7, 8)), deep(65, 75, 85));
}

#[test]
fn blend_has_sixteen_bits() {
    let image = DynamicImage::ImageRgb8(RgbImage::from_raw(1, 2, vec![0, 0, 255, 1, 255, 0]).unwrap());
    let map = Colormap::new(image);
    // Half way from 0 to 257 is 128.5, which rounds up; half way from
    // 65535 to 0 is 32767.5.
    assert_eq!(map.get_color(0, at(1, 4)), Color { r: 129, g: 32768, b: 32768 });
    assert_eq!(map.get_color(0, at(1, 6)), Color { r: 86, g: 21845, b: 43690 });
}

#[test]
fn single_row_is_constant() {
    let image = DynamicImage::ImageRgb8(RgbImage::from_raw(1, 1, vec![1, 2, 3]).unwrap());
    let map = Colormap::new(image);
    assert_eq!(map.get_color(0, at(0, 9)), deep(1, 2, 3));
    assert_eq!(map.get_color(0, at(4, 9)), deep(1, 2, 3));
    assert_eq!(map.get_color(0, at(8, 9)), deep(1, 2, 3));
}

#[test]
fn large_denominators_do_not_overflow() {
    let map = table();
    assert_eq!(map.get_background_top(at(u64::MAX / 2 + 1, u64::MAX)), Color { r: 28270, g: 30840, b: 33410 });
    assert_eq!(map.get_background_top(at(0, u64::MAX)), deep(10, 20, 30));
}

#[test]
fn stored_table_is_restored() {
    let map = table();
    let raw = map.to_raw();
    assert_eq!(raw.width, 3);
    assert_eq!(raw.data.len(), 18);
    assert_eq!(Colormap::from_raw(raw), Some(map));
}

#[test]
fn restored_height_counts_whole_rows() {
    let map = Colormap::from_raw(RawImage { width: 2, data: vec![7; 15] }).unwrap();
    assert_eq!(map.width, 2);
    assert_eq!(map.height, 2);
    assert_eq!(map.data, vec![7; 12]);
    let none = Colormap::from_raw(RawImage { width: 4, data: vec![7; 11] }).unwrap();
    assert_eq!(none.height, 0);
    assert_eq!(none.data, Vec::<u8>::new());
}

#[test]
fn there_is_no_table_of_width_zero() {
    assert_eq!(Colormap::from_raw(RawImage { width: 0, data: vec![1, 2, 3] }), None);
    assert_eq!(Colormap::from_raw(RawImage { width: 0, data: vec![] }), None);
}
