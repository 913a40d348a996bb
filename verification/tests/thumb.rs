use gauntlet::thumb::{
    declares_argb, same_pixels, BitmapError, BitmapInfo, Rendering, Thumb, ALPHA_ARGB,
};

fn filled(width: u32, height: u32, p: [u8; 4]) -> Thumb {
    let mut pixels = Vec::new();
    for _ in 0..width * height {
        pixels.extend_from_slice(&p);
    }
    Thumb { width, height, pixels, alpha: ALPHA_ARGB }
}

fn with_pixels(mut t: Thumb, count: usize, p: [u8; 4]) -> Thumb {
    for i in 0..count {
        t.pixels[4 * i..4 * i + 4].copy_from_slice(&p);
    }
    t
}

const CLEAR: [u8; 4] = [0, 0, 0, 0];
const BLACK: [u8; 4] = [0, 0, 0, 0xFF];
const RED: [u8; 4] = [0, 0, 0xFF, 0xFF];
const BLUE: [u8; 4] = [0xFF, 0, 0, 0xFF];

#[test]
fn nothing_at_all_is_empty() {
    assert_eq!(filled(0, 0, CLEAR).classify(), Rendering::Empty);
}

#[test]
fn solid_black_is_the_last_resort() {
    assert_eq!(filled(8, 8, BLACK).classify(), Rendering::BlackSquareFallback);
    let almost = with_pixels(filled(8, 8, BLACK), 1, [1, 0, 0, 0xFF]);
    assert_eq!(almost.classify(), Rendering::Real);
}

#[test]
fn nothing_visible_is_transparent() {
    assert_eq!(filled(8, 8, CLEAR).classify(), Rendering::Transparent);
    assert_eq!(filled(8, 8, [9, 9, 9, 0]).classify(), Rendering::Transparent);
}

#[test]
fn sparse_red_is_the_placeholder() {
    let t = with_pixels(filled(10, 10, CLEAR), 24, RED);
    assert_eq!(t.classify(), Rendering::RedXFallback);
    // A quarter of the picture is too much for two thin diagonals.
    let t = with_pixels(filled(10, 10, CLEAR), 25, RED);
    assert_eq!(t.classify(), Rendering::Real);
}

#[test]
fn mostly_red_is_enough_for_the_placeholder() {
    // 19 of 20 visible pixels are red: exactly 95 per cent.
    let t = with_pixels(with_pixels(filled(10, 10, CLEAR), 20, RED), 1, BLUE);
    assert_eq!(t.classify(), Rendering::RedXFallback);
    // 18 of 20 are not enough.
    let t = with_pixels(with_pixels(filled(10, 10, CLEAR), 20, RED), 2, BLUE);
    assert_eq!(t.classify(), Rendering::Real);
}

#[test]
fn red_means_strongly_red() {
    for (p, red) in [
        ([89, 89, 151, 17], true),
        ([90, 0, 255, 255], false),
        ([0, 90, 255, 255], false),
        ([0, 0, 150, 255], false),
    ] {
        let t = with_pixels(filled(10, 10, CLEAR), 5, p);
        assert_eq!(t.classify() == Rendering::RedXFallback, red, "{p:?}");
    }
    // Pixels that are barely opaque do not count as visible.
    let t = with_pixels(filled(10, 10, CLEAR), 5, [0, 0, 255, 16]);
    assert_eq!(t.classify(), Rendering::Real);
}

#[test]
fn only_placeholders_are_fallbacks() {
    assert!(Rendering::RedXFallback.is_fallback());
    assert!(Rendering::BlackSquareFallback.is_fallback());
    for r in [Rendering::Real, Rendering::Transparent, Rendering::Empty] {
        assert!(!r.is_fallback());
    }
}

#[test]
fn renderings_are_written_by_name() {
    for r in [
        Rendering::Real,
        Rendering::RedXFallback,
        Rendering::BlackSquareFallback,
        Rendering::Transparent,
        Rendering::Empty,
    ] {
        assert_eq!(r.text(), format!("{r:?}"));
    }
}

#[test]
fn pixels_are_found_by_position() {
    let mut t = filled(3, 2, CLEAR);
    t.pixels[4 * 5..4 * 6].copy_from_slice(&[1, 2, 3, 4]);
    assert_eq!(t.pixel(2, 1), [1, 2, 3, 4]);
    assert_eq!(t.pixel(0, 0), CLEAR);
    assert!(t.has_pixel(2, 1));
    assert!(!t.has_pixel(2, 2));
}

#[test]
fn uniformity_and_transparency() {
    assert!(filled(0, 0, CLEAR).is_uniform());
    assert!(filled(4, 4, RED).is_uniform());
    assert!(!with_pixels(filled(4, 4, RED), 1, BLUE).is_uniform());
    assert!(filled(4, 4, CLEAR).is_fully_transparent());
    assert!(!with_pixels(filled(4, 4, CLEAR), 1, [0, 0, 0, 1]).is_fully_transparent());
}

#[test]
fn coverage_is_compared_as_a_fraction() {
    let t = with_pixels(filled(10, 10, CLEAR), 25, [0, 0, 0, 1]);
    assert_eq!(t.covered_count(), 25);
    let coverage = 25.0 / 100.0;
    for (num, den) in [(1u32, 4u32), (1, 5), (1, 3), (19, 20), (1, 50)] {
        let f = num as f64 / den as f64;
        assert_eq!(t.coverage_below(num, den), coverage < f);
        assert_eq!(t.coverage_above(num, den), coverage > f);
    }
    // A picture without area covers nothing.
    let none = filled(0, 0, CLEAR);
    assert!(none.coverage_below(1, 4));
    assert!(!none.coverage_above(1, 50));
    // Nothing is less than nothing.
    assert!(!none.coverage_below(0, 4));
    assert!(!t.coverage_below(0, 4));
}

#[test]
fn the_same_pixels_are_the_same() {
    assert!(same_pixels(&filled(4, 4, RED), &filled(4, 4, RED)));
    assert!(!same_pixels(&filled(4, 4, RED), &filled(4, 4, BLUE)));
    assert!(!same_pixels(&filled(4, 4, RED), &filled(4, 5, RED)));
}

#[test]
fn only_one_alpha_type_is_right() {
    let mut t = filled(1, 1, RED);
    assert!(declares_argb(&t));
    t.alpha = 0;
    assert!(!declares_argb(&t));
    t.alpha = 1;
    assert!(!declares_argb(&t));
}

fn info(width: i32, height: i32, stride: usize) -> BitmapInfo {
    BitmapInfo { described: true, has_bits: true, bits_per_pixel: 32, width, height, stride }
}

fn message(i: BitmapInfo) -> String {
    match i.plan() {
        Ok(_) => panic!("a plan came out"),
        Err(e) => e.message(),
    }
}

#[test]
fn bitmaps_that_cannot_be_copied_are_refused() {
    let mut i = info(2, 2, 8);
    i.described = false;
    assert!(matches!(i.plan(), Err(BitmapError::NotDescribed)));
    assert_eq!(message(i), "GetObjectW failed on the returned HBITMAP");

    let mut i = info(2, 2, 8);
    i.has_bits = false;
    assert!(matches!(i.plan(), Err(BitmapError::NoBits)));
    assert_eq!(message(i), "returned HBITMAP is not a DIB section (no accessible bits)");

    let mut i = info(2, 2, 8);
    i.bits_per_pixel = 24;
    assert!(matches!(i.plan(), Err(BitmapError::WrongDepth { bits_per_pixel: 24 })));
    assert_eq!(message(i), "expected a 32bpp bitmap, got 24bpp");

    for (w, h, stride, text) in [
        (0, 2, 8usize, "implausible bitmap geometry 0x2 stride 8"),
        (2, 0, 8, "implausible bitmap geometry 2x0 stride 8"),
        (2, 2, 7, "implausible bitmap geometry 2x2 stride 7"),
        (-3, -2, 11, "implausible bitmap geometry 3x2 stride 11"),
    ] {
        assert!(matches!(info(w, h, stride).plan(), Err(BitmapError::Implausible { .. })));
        assert_eq!(message(info(w, h, stride)), text);
    }
}

fn assembled(i: BitmapInfo, raw: &[u8]) -> Thumb {
    match i.plan() {
        Ok(plan) => {
            assert!(plan.fits());
            plan.assemble(raw, ALPHA_ARGB)
        }
        Err(e) => panic!("{}", e.message()),
    }
}

#[test]
fn either_orientation_gives_the_same_picture() {
    // Two rows of two pixels, four bytes of padding after each.
    let top: [u8; 12] = [1, 1, 1, 1, 2, 2, 2, 2, 99, 99, 99, 99];
    let bottom: [u8; 12] = [3, 3, 3, 3, 4, 4, 4, 4, 99, 99, 99, 99];
    let down: Vec<u8> = top.iter().chain(bottom.iter()).copied().collect();
    let up: Vec<u8> = bottom.iter().chain(top.iter()).copied().collect();
    let a = assembled(info(2, -2, 12), &down);
    let b = assembled(info(2, 2, 12), &up);
    assert_eq!(a.pixels, vec![1, 1, 1, 1, 2, 2, 2, 2, 3, 3, 3, 3, 4, 4, 4, 4]);
    assert_eq!(a.pixels, b.pixels);
    assert_eq!((a.width, a.height, a.alpha), (2, 2, ALPHA_ARGB));
}
