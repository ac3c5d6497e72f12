use ui_core::fontcache::FontRequest;
use ui_core::geometry::ScaleFactor;
use ui_core::softfonts::BitmapFont;
use ui_core::softfonts::BitmapFontRegistry;
use ui_core::softfonts::BitmapGlyphs;
use ui_core::softfonts::Font;
use ui_core::softfonts::GlyphAlphaMap;
use ui_core::softfonts::RenderableGlyph;
use ui_core::softfonts::match_font;
use ui_core::softfonts::text_layout_for_font;
use ui_core::softfonts::text_size;

fn glyphs(pixel_size: i64, advance: i64) -> BitmapGlyphs {
    BitmapGlyphs {
        pixel_size,
        height: pixel_size + pixel_size / 5,
        default_advance: advance,
        advances: Vec::new(),
    }
}

fn registry() -> BitmapFontRegistry {
    let mut reg = BitmapFontRegistry::new();
    reg.register_bitmap_font(BitmapFont {
        family_name: String::from("PixelSans"),
        glyphs: vec![glyphs(8, 4), glyphs(12, 6), glyphs(24, 12)],
    });
    reg.register_bitmap_font(BitmapFont {
        family_name: String::from("PixelSerif"),
        glyphs: vec![glyphs(10, 5)],
    });
    reg
}

fn request(family: Option<&str>, pixels: Option<u64>) -> FontRequest {
    FontRequest {
        family: family.map(String::from),
        pixel_size: pixels.map(|p| p * 65536),
        weight: None,
        letter_spacing: None,
    }
}

#[test]
fn match_font_by_family() {
    let reg = registry();
    let Font::PixelFont(pf) = match_font(&reg, &request(Some("PixelSerif"), Some(10)), ScaleFactor::new(65536));
    assert_eq!(pf.font_index, 1);
    assert_eq!(pf.glyphs_index, 0);
}

#[test]
fn match_font_falls_back_to_first() {
    let reg = registry();
    let Font::PixelFont(pf) = match_font(&reg, &request(Some("Unknown"), Some(12)), ScaleFactor::new(65536));
    assert_eq!(pf.font_index, 0);
    assert_eq!(pf.glyphs_index, 1);
    let Font::PixelFont(pf2) = match_font(&reg, &request(None, Some(12)), ScaleFactor::new(65536));
    assert_eq!(pf2.font_index, 0);
}

#[test]
fn match_font_picks_nearest_size_below() {
    let reg = registry();
    let s = ScaleFactor::new(65536);
    // 8 <= 11 < 12: the 8-pixel set wins at 11 pixels.
    let Font::PixelFont(a) = match_font(&reg, &request(None, Some(11)), s);
    assert_eq!(a.glyphs_index, 0);
    // At 100 pixels the largest set wins.
    let Font::PixelFont(b) = match_font(&reg, &request(None, Some(100)), s);
    assert_eq!(b.glyphs_index, 2);
    // Below the smallest set, the smallest is still used.
    let Font::PixelFont(c) = match_font(&reg, &request(None, Some(4)), s);
    assert_eq!(c.glyphs_index, 0);
    // The scale factor doubles the requested size: 12 logical pixels at
    // scale two ask for 24 physical.
    let Font::PixelFont(d) = match_font(&reg, &request(None, Some(12)), ScaleFactor::new(2 * 65536));
    assert_eq!(d.glyphs_index, 2);
}

#[test]
fn layout_font_carries_metrics() {
    let reg = registry();
    let s = ScaleFactor::new(65536);
    let Font::PixelFont(pf) = match_font(&reg, &request(None, Some(12)), s);
    let tf = text_layout_for_font(&reg, &pf, &request(None, Some(12)), s);
    assert_eq!(tf.height, 14);
    assert_eq!(tf.default_advance, 6);
}

#[test]
fn software_text_size_measures_logically() {
    let reg = registry();
    let s = ScaleFactor::new(65536);
    let text: Vec<char> = "ab\nabcd".chars().collect();
    let (w, h) = text_size(&reg, &request(None, Some(12)), &text, None, s);
    // Four characters of six pixels on the widest line; two lines of
    // height fourteen; everything in subpixel units at scale one.
    assert_eq!(w, 24 * 65536);
    assert_eq!(h, 28 * 65536);
    // At scale two, physical measurement doubles and converts back.
    let s2 = ScaleFactor::new(2 * 65536);
    let (w2, h2) = text_size(&reg, &request(None, Some(12)), &text, None, s2);
    assert_eq!(w2, 24 * 65536);
    assert_eq!(h2, 28 * 65536);
}

#[test]
fn renderable_glyph_size() {
    let g = RenderableGlyph {
        x: 1,
        y: 2,
        width: 7,
        height: 9,
        alpha_map: GlyphAlphaMap::Shared(std::rc::Rc::new(vec![0u8; 63])),
    };
    let size = g.size();
    assert_eq!(size.width, 7);
    assert_eq!(size.height, 9);
}
