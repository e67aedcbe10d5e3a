use raytracing_rs::color::Rgb8;
use raytracing_rs::texture::Footprint;
use raytracing_rs::texture::Texture;
use raytracing_rs::texture::TextureError;

fn rgb(r: u8, g: u8, b: u8) -> Rgb8 {
    Rgb8 { r, g, b }
}

/// A 3 x 2 texture of three channels whose texel (x, y) is
/// (10 * y + x, 100 + 10 * y + x, 200 + 10 * y + x).
fn grid() -> Texture {
    let mut bytes = Vec::new();
    for y in 0..2u8 {
        for x in 0..3u8 {
            bytes.push(10 * y + x);
            bytes.push(100 + 10 * y + x);
            bytes.push(200 + 10 * y + x);
        }
    }
    Texture::from_parts(3, 2, 3, bytes).unwrap()
}

fn at(x: u8, y: u8) -> Rgb8 {
    rgb(10 * y + x, 100 + 10 * y + x, 200 + 10 * y + x)
}

#[test]
fn from_parts_keeps_the_parts() {
    let t = Texture::from_parts(2, 1, 3, vec![1, 2, 3, 4, 5, 6]).unwrap();
    assert_eq!(t.width(), 2);
    assert_eq!(t.height(), 1);
    assert_eq!(t.channels(), 3);
    assert_eq!(t.image(), &vec![1, 2, 3, 4, 5, 6]);
}

#[test]
fn from_parts_refuses_an_empty_side() {
    assert_eq!(Texture::from_parts(0, 1, 3, vec![]).err(), Some(TextureError::Dimensions));
    assert_eq!(Texture::from_parts(1, 0, 3, vec![]).err(), Some(TextureError::Dimensions));
}

#[test]
fn from_parts_refuses_a_side_beyond_i32() {
    assert_eq!(
        Texture::from_parts(0x8000_0000, 1, 3, vec![0; 3]).err(),
        Some(TextureError::Dimensions)
    );
    assert_eq!(
        Texture::from_parts(1, u32::MAX, 3, vec![0; 3]).err(),
        Some(TextureError::Dimensions)
    );
}

#[test]
fn from_parts_refuses_fewer_than_three_channels() {
    assert_eq!(Texture::from_parts(1, 1, 2, vec![0, 0]).err(), Some(TextureError::Channels));
    assert_eq!(Texture::from_parts(1, 1, 0, vec![]).err(), Some(TextureError::Channels));
}

#[test]
fn from_parts_refuses_a_wrong_length() {
    assert_eq!(Texture::from_parts(2, 2, 3, vec![0; 11]).err(), Some(TextureError::Length));
    assert_eq!(Texture::from_parts(2, 2, 3, vec![0; 13]).err(), Some(TextureError::Length));
    assert!(Texture::from_parts(2, 2, 3, vec![0; 12]).is_ok());
}

#[test]
fn faults_are_named_in_order() {
    // An empty side is named before too few channels, and those before the length.
    assert_eq!(Texture::from_parts(0, 1, 1, vec![0; 5]).err(), Some(TextureError::Dimensions));
    assert_eq!(Texture::from_parts(1, 1, 1, vec![0; 5]).err(), Some(TextureError::Channels));
}

#[test]
fn huge_sides_do_not_overflow() {
    assert_eq!(
        Texture::from_parts(0x7fff_ffff, 0x7fff_ffff, 255, vec![0; 4]).err(),
        Some(TextureError::Length)
    );
}

#[test]
fn new_takes_an_rgb_image() {
    let img = image::RgbImage::from_raw(2, 1, vec![1, 2, 3, 4, 5, 6]).unwrap();
    let t = Texture::new(image::DynamicImage::ImageRgb8(img)).unwrap();
    assert_eq!(t.width(), 2);
    assert_eq!(t.height(), 1);
    assert_eq!(t.channels(), 3);
    assert_eq!(t.image(), &vec![1, 2, 3, 4, 5, 6]);
    assert_eq!(t.clamped(1, 0), rgb(4, 5, 6));
}

#[test]
fn new_takes_an_rgba_image_and_skips_alpha() {
    let img = image::RgbaImage::from_raw(1, 2, vec![1, 2, 3, 250, 4, 5, 6, 251]).unwrap();
    let t = Texture::new(image::DynamicImage::ImageRgba8(img)).unwrap();
    assert_eq!(t.width(), 1);
    assert_eq!(t.height(), 2);
    assert_eq!(t.channels(), 4);
    assert_eq!(t.clamped(0, 0), rgb(1, 2, 3));
    assert_eq!(t.clamped(0, 1), rgb(4, 5, 6));
}

#[test]
fn new_refuses_a_grey_image() {
    let img = image::GrayImage::from_raw(2, 2, vec![1, 2, 3, 4]).unwrap();
    let r = Texture::new(image::DynamicImage::ImageLuma8(img));
    assert_eq!(r.err(), Some(TextureError::Channels));
}

#[test]
fn new_refuses_sixteen_bit_samples() {
    let img: image::ImageBuffer<image::Rgb<u16>, Vec<u16>> =
        image::ImageBuffer::from_raw(1, 1, vec![1, 2, 3]).unwrap();
    let r = Texture::new(image::DynamicImage::ImageRgb16(img));
    assert_eq!(r.err(), Some(TextureError::Length));
}

#[test]
fn new_refuses_an_empty_image() {
    let img = image::RgbImage::new(0, 0);
    let r = Texture::new(image::DynamicImage::ImageRgb8(img));
    assert_eq!(r.err(), Some(TextureError::Dimensions));
}

#[test]
fn clone_keeps_the_texture() {
    let t = grid();
    let u = t.clone();
    assert_eq!(u.width(), 3);
    assert_eq!(u.height(), 2);
    assert_eq!(u.channels(), 3);
    assert_eq!(u.image(), t.image());
}

#[test]
fn clamped_reads_the_texel_inside() {
    let t = grid();
    for y in 0..2u8 {
        for x in 0..3u8 {
            assert_eq!(t.clamped(x as i32, y as i32), at(x, y));
        }
    }
}

#[test]
fn clamped_reads_the_edge_outside() {
    let t = grid();
    assert_eq!(t.clamped(-1, 0), at(0, 0));
    assert_eq!(t.clamped(3, 0), at(2, 0));
    assert_eq!(t.clamped(1, -1), at(1, 0));
    assert_eq!(t.clamped(1, 2), at(1, 1));
    assert_eq!(t.clamped(-5, 7), at(0, 1));
    assert_eq!(t.clamped(i32::MIN, i32::MIN), at(0, 0));
    assert_eq!(t.clamped(i32::MAX, i32::MAX), at(2, 1));
}

#[test]
fn wrapped_reads_the_texel_inside() {
    let t = grid();
    for y in 0..2u8 {
        for x in 0..3u8 {
            assert_eq!(t.wrapped(x as i32, y as i32), at(x, y));
        }
    }
}

#[test]
fn wrapped_repeats_the_image() {
    let t = grid();
    assert_eq!(t.wrapped(3, 0), at(0, 0));
    assert_eq!(t.wrapped(4, 2), at(1, 0));
    assert_eq!(t.wrapped(8, 5), at(2, 1));
    for j in -4..4 {
        for i in -6..6 {
            assert_eq!(t.wrapped(i + 3, j), t.wrapped(i, j));
            assert_eq!(t.wrapped(i, j + 2), t.wrapped(i, j));
        }
    }
}

#[test]
fn wrapped_takes_the_true_modulus_of_a_negative_index() {
    let t = grid();
    assert_eq!(t.wrapped(-1, 0), at(2, 0));
    assert_eq!(t.wrapped(-2, 0), at(1, 0));
    assert_eq!(t.wrapped(-3, 0), at(0, 0));
    assert_eq!(t.wrapped(-4, -1), at(2, 1));
    assert_eq!(t.wrapped(0, -2), at(0, 0));
    // i32::MIN = -2^31; 2^31 mod 3 = 2, so the column is 1; the row is 0.
    assert_eq!(t.wrapped(i32::MIN, i32::MIN), at(1, 0));
    // i32::MAX = 2^31 - 1; mod 3 that is 1, mod 2 it is 1.
    assert_eq!(t.wrapped(i32::MAX, i32::MAX), at(1, 1));
}

#[test]
fn both_addressings_agree_inside_and_differ_outside() {
    let t = grid();
    assert_eq!(t.clamped(2, 1), t.wrapped(2, 1));
    assert_eq!(t.clamped(-1, 0), at(0, 0));
    assert_eq!(t.wrapped(-1, 0), at(2, 0));
}

#[test]
fn bilinear_footprint_at_the_first_corner_wraps_around() {
    // The texture coordinate (0, 0) lies half a texel before the first texel
    // centre in both directions, so the base index is (-1, -1).
    let t = grid();
    let f = t.get_sample_linear(-1, -1);
    assert_eq!(
        f,
        Footprint { c00: at(2, 1), c10: at(0, 1), c01: at(2, 0), c11: at(0, 0) }
    );
    // Edge clamping would have read the first texel for all four.
    assert_eq!(t.clamped(-1, -1), at(0, 0));
    assert_eq!(t.clamped(0, -1), at(0, 0));
    assert_eq!(t.clamped(-1, 0), at(0, 0));
    assert_ne!(f.c00, t.clamped(-1, -1));
}

#[test]
fn bilinear_footprint_inside_is_the_four_neighbours() {
    let t = grid();
    let f = t.get_sample_linear(1, 0);
    assert_eq!(
        f,
        Footprint { c00: at(1, 0), c10: at(2, 0), c01: at(1, 1), c11: at(2, 1) }
    );
}

#[test]
fn bilinear_footprint_at_the_last_texel_wraps_to_the_first() {
    let t = grid();
    let f = t.get_sample_linear(2, 1);
    assert_eq!(
        f,
        Footprint { c00: at(2, 1), c10: at(0, 1), c01: at(2, 0), c11: at(0, 0) }
    );
}

#[test]
fn bilinear_footprint_at_the_largest_index_does_not_overflow() {
    let t = grid();
    let f = t.get_sample_linear(i32::MAX, i32::MAX);
    // 2^31 - 1 is 1 mod 3 and 1 mod 2; 2^31 is 2 mod 3 and 0 mod 2.
    assert_eq!(
        f,
        Footprint { c00: at(1, 1), c10: at(2, 1), c01: at(1, 0), c11: at(2, 0) }
    );
}

#[test]
fn one_texel_is_its_own_neighbourhood() {
    let t = Texture::from_parts(1, 1, 3, vec![7, 8, 9]).unwrap();
    let c = rgb(7, 8, 9);
    assert_eq!(t.get_sample_linear(-1, -1), Footprint { c00: c, c10: c, c01: c, c11: c });
    assert_eq!(t.clamped(12, -3), c);
    assert_eq!(t.wrapped(12, -3), c);
}
