use base64::Engine;
use rust_captcha::generator::{captcha_png, do_image, sample_char_properties, to_base64,
    CharConfig, Image, Pixel};

fn white_canvas(w: usize, h: usize) -> Image {
    Image::fill(w, h, 255)
}

#[test]
fn test_image_new() {
    let i = Image::new(0, 0);
    assert!(i.height == 0 && i.width == 0 && i.buf.len() == 0);
    let j = Image::new(100, 10);
    assert!(j.height == 10 && j.width == 100 && j.buf.len() == 3000);
}

#[test]
fn test_pixel() {
    assert!(Image::new(100, 10).pixel(0, 0).unwrap() == Pixel::black());
    assert!(Image::fill(100, 10, 255).pixel(0, 0).unwrap() == Pixel::white());
    assert!(Image::new(100, 10).pixel(100, 0).is_none());
    assert!(Image::new(100, 10).pixel(0, 10).is_none());
}

#[test]
fn test_borders() {
    let mut i = Image::fill(200, 250, 255);
    i.set_pixel(3, 10, Pixel::black());
    let b = i.borders(Pixel::white());
    assert_eq!(b.north, 10);
    assert_eq!(b.south, 239);
    assert_eq!(b.east, 3);
    assert_eq!(b.west, 196);
}

#[test]
fn test_borders_blank_image() {
    let i = Image::fill(7, 5, 255);
    let b = i.borders(Pixel::white());
    assert_eq!(b.north, 5);
    assert_eq!(b.south, 5);
    assert_eq!(b.east, 7);
    assert_eq!(b.west, 7);
}

#[test]
fn test_set_pixel_roundtrip() {
    let mut i = white_canvas(4, 4);
    assert!(i.set_pixel(2, 3, Pixel { r: 9, g: 8, b: 7 }).is_some());
    assert_eq!(i.pixel(2, 3).unwrap(), Pixel { r: 9, g: 8, b: 7 });
    assert!(i.set_pixel(4, 0, Pixel::black()).is_none());
}

#[test]
fn test_do_image_dimensions_and_pixels() {
    // Two glyphs on white 10x10 canvases: one dot at (3,4), one dot at (5,2).
    let mut g1 = white_canvas(10, 10);
    g1.set_pixel(3, 4, Pixel::black());
    let mut g2 = white_canvas(10, 10);
    g2.set_pixel(5, 2, Pixel { r: 1, g: 2, b: 3 });
    let out = do_image(&vec![g1, g2]).unwrap();
    // Each glyph trims to a single pixel.
    assert_eq!(out.width, 2);
    assert_eq!(out.height, 1);
    assert_eq!(out.pixel(0, 0).unwrap(), Pixel::black());
    assert_eq!(out.pixel(1, 0).unwrap(), Pixel { r: 1, g: 2, b: 3 });
}

#[test]
fn test_do_image_heights_align_top() {
    // First glyph is a 1x2 vertical bar, second a single dot.
    let mut g1 = white_canvas(6, 6);
    g1.set_pixel(2, 1, Pixel::black());
    g1.set_pixel(2, 2, Pixel::black());
    let mut g2 = white_canvas(6, 6);
    g2.set_pixel(4, 4, Pixel::black());
    let out = do_image(&vec![g1, g2]).unwrap();
    assert_eq!(out.width, 2);
    assert_eq!(out.height, 2);
    assert_eq!(out.pixel(0, 0).unwrap(), Pixel::black());
    assert_eq!(out.pixel(0, 1).unwrap(), Pixel::black());
    // The second glyph sits flush with the top; below it the canvas stays
    // white.
    assert_eq!(out.pixel(1, 0).unwrap(), Pixel::black());
    assert_eq!(out.pixel(1, 1).unwrap(), Pixel::white());
}

#[test]
fn test_captcha_png_decodes_back() {
    let mut g1 = white_canvas(8, 8);
    g1.set_pixel(1, 1, Pixel::black());
    g1.set_pixel(2, 1, Pixel::black());
    let png = captcha_png(&vec![g1]).unwrap();
    assert_eq!(&png[..8], &[0x89u8, b'P', b'N', b'G', 0x0d, 0x0a, 0x1a, 0x0a]);
    let decoded = lodepng::decode24(&png).unwrap();
    assert_eq!(decoded.width, 2);
    assert_eq!(decoded.height, 1);
    assert_eq!(decoded.buffer[0].r, 0);
    assert_eq!(decoded.buffer[1].r, 0);
}

#[test]
fn test_as_png_of_known_canvas() {
    let mut img = white_canvas(3, 2);
    img.set_pixel(0, 0, Pixel { r: 10, g: 20, b: 30 });
    let png = img.as_png().unwrap();
    let decoded = lodepng::decode24(&png).unwrap();
    assert_eq!(decoded.width, 3);
    assert_eq!(decoded.height, 2);
    assert_eq!(decoded.buffer[0].r, 10);
    assert_eq!(decoded.buffer[0].g, 20);
    assert_eq!(decoded.buffer[0].b, 30);
    assert_eq!(decoded.buffer[5].r, 255);
}

#[test]
fn test_to_base64_exact() {
    assert_eq!(to_base64(&vec![1u8, 2, 3]), "AQID");
    assert_eq!(to_base64(&vec![]), "");
    assert_eq!(to_base64(&vec![255u8]), "/w==");
    let bytes: Vec<u8> = (0u8..=200).collect();
    let enc = to_base64(&bytes);
    let dec = base64::engine::general_purpose::STANDARD.decode(&enc).unwrap();
    assert_eq!(dec, bytes);
}

#[test]
fn test_sample_char_properties_ranges() {
    let cc = CharConfig {
        min_angle: -10,
        max_angle: 10,
        min_size: 56,
        max_size: 72,
        colors: vec!["black".to_string(), "green".to_string()],
        fonts: vec!["Verdana-Bold-Italic".to_string()],
    };
    let chars: Vec<char> = "abcdefgh".chars().collect();
    let props = sample_char_properties(&chars, &cc).unwrap();
    assert_eq!(props.len(), 8);
    for (k, p) in props.iter().enumerate() {
        assert_eq!(p.c, chars[k]);
        assert!(-10 <= p.angle && p.angle <= 10);
        assert!(56 <= p.fontsize && p.fontsize <= 72);
        assert!(p.color == "black" || p.color == "green");
        assert_eq!(p.font, "Verdana-Bold-Italic");
    }
}

#[test]
fn test_sample_char_properties_defaults() {
    let cc = CharConfig {
        min_angle: 0,
        max_angle: 0,
        min_size: 8,
        max_size: 8,
        colors: vec![],
        fonts: vec![],
    };
    let chars: Vec<char> = "xy".chars().collect();
    let props = sample_char_properties(&chars, &cc).unwrap();
    assert_eq!(props[0].color, "black");
    assert_eq!(props[0].font, "Verdana-Bold-Italic");
    assert_eq!(props[1].angle, 0);
    assert_eq!(props[1].fontsize, 8);
}
