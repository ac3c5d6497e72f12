//! The software renderer's font subsystem: embedded bitmap fonts, the
//! family/size matching rule and text measurement over the matched font.
//!
//! Bitmap fonts are registered ahead of time, each carrying glyph sets
//! pre-rendered at a few pixel sizes.  Matching picks the font whose
//! family the request names (the first registered font otherwise) and,
//! inside it, the largest glyph set not larger than the requested pixel
//! size.

use vstd::prelude::*;
use crate::fontcache::FontRequest;
use crate::fontcache::DEFAULT_FONT_SIZE;
use crate::geometry::PhysicalSize;
use crate::geometry::ScaleFactor;
use crate::geometry::clamp_to_u32;
use crate::geometry::clamp_to_i32;
use crate::geometry::clamp_to_u64;
use crate::geometry::logical_of_physical;
use crate::geometry::physical_of_logical;
use crate::geometry::physical_extent_of_logical;
use crate::geometry::physical_coord_of_logical;
use crate::geometry::logical_extent_of_physical_wide;
use crate::textlayout::MAX_DIMENSION;
use crate::textlayout::MAX_TEXT_LEN;
use crate::textlayout::TextFont;
use crate::textlayout::count_lines_nowrap;
use crate::textlayout::count_lines_wrap;
use crate::textlayout::max_line_width_nowrap;
use crate::textlayout::max_line_width_wrap;

verus! {

/// The pixels of one rendered glyph: either static data compiled into
/// the program, or shared data produced at runtime.
pub enum GlyphAlphaMap {
    /// Alpha values compiled into the program.
    Static(&'static [u8]),
    /// Alpha values rendered at runtime and shared.
    Shared(std::rc::Rc<Vec<u8>>),
}

/// One glyph ready for blitting: its placement, size and alpha map.
pub struct RenderableGlyph {
    /// Horizontal offset of the glyph's box, in physical pixels.
    pub x: i32,
    /// Vertical offset of the glyph's box, in physical pixels.
    pub y: i32,
    /// Width of the glyph's box, in physical pixels.
    pub width: u32,
    /// Height of the glyph's box, in physical pixels.
    pub height: u32,
    /// The glyph's pixels.
    pub alpha_map: GlyphAlphaMap,
}

impl RenderableGlyph {
    /// The size of the glyph's box.
    pub fn size(&self) -> (r: PhysicalSize)
        ensures
            r.width == self.width,
            r.height == self.height,
    {
        PhysicalSize { width: self.width, height: self.height }
    }
}

/// A rasterizer for one glyph set: resolves a nonzero glyph id to its
/// rendered pixels.  Renderer backends implement this.
pub trait GlyphRenderer {
    /// Render one glyph.
    fn render_glyph(&self, glyph_id: u16) -> RenderableGlyph
        requires
            glyph_id > 0,
    ;
}

/// The glyphs of one bitmap font at one pre-rendered pixel size, with the
/// metrics the layout engine needs.
pub struct BitmapGlyphs {
    /// The pixel size these glyphs were rendered at, in physical pixels.
    pub pixel_size: i64,
    /// The line height at this size, in physical pixels.
    pub height: i64,
    /// The advance of characters without a table entry.
    pub default_advance: i64,
    /// Per-character advances.
    pub advances: Vec<(char, i64)>,
}

impl BitmapGlyphs {
    /// Metric sanity: a positive size and height, and advances inside the
    /// layout engine's bounds.
    pub open spec fn wf(&self) -> bool {
        &&& 0 < self.pixel_size <= MAX_DIMENSION
        &&& 0 < self.height <= MAX_DIMENSION
        &&& 0 <= self.default_advance <= MAX_DIMENSION
        &&& forall|i: int|
            0 <= i < self.advances@.len() ==> 0 <= (#[trigger] self.advances@[i]).1
                <= MAX_DIMENSION
    }
}

/// An embedded bitmap font: a family name and glyph sets at increasing
/// pixel sizes.
pub struct BitmapFont {
    /// The font's family name.
    pub family_name: String,
    /// The glyph sets, sorted by pixel size, at least one.
    pub glyphs: Vec<BitmapGlyphs>,
}

impl BitmapFont {
    /// At least one glyph set, sorted by pixel size, all well-formed.
    pub open spec fn wf(&self) -> bool {
        &&& self.glyphs@.len() > 0
        &&& forall|i: int| 0 <= i < self.glyphs@.len() ==> (#[trigger] self.glyphs@[i]).wf()
        &&& forall|i: int, j: int|
            0 <= i < j < self.glyphs@.len() ==> (#[trigger] self.glyphs@[i]).pixel_size <= (
            #[trigger] self.glyphs@[j]).pixel_size
    }
}

/// The registry of embedded bitmap fonts, in registration order.
pub struct BitmapFontRegistry {
    fonts: Vec<BitmapFont>,
}

/// The first registered font whose family is the requested one.
pub open spec fn find_family_from(fonts: Seq<BitmapFont>, fam: Seq<char>, i: int) -> Option<int>
    decreases fonts.len() - i,
{
    if i < 0 || i >= fonts.len() {
        None
    } else if fonts[i].family_name@ == fam {
        Some(i)
    } else {
        find_family_from(fonts, fam, i + 1)
    }
}

/// How many glyph sets have a pixel size at most the requested one.
pub open spec fn count_sizes_at_most(glyphs: Seq<BitmapGlyphs>, req: int) -> int
    decreases glyphs.len(),
{
    if glyphs.len() == 0 {
        0
    } else {
        count_sizes_at_most(glyphs.drop_last(), req) + (if glyphs.last().pixel_size <= req {
            1int
        } else {
            0int
        })
    }
}

/// The glyph set the matching rule picks: the last one not larger than
/// the requested size, or the smallest when all are larger.
pub open spec fn spec_glyph_selection(glyphs: Seq<BitmapGlyphs>, req: int) -> int {
    let c = count_sizes_at_most(glyphs, req);
    if c > 0 {
        c - 1
    } else {
        0
    }
}

/// A matched bitmap font: indices of the font and of the chosen glyph
/// set inside the registry.
#[derive(Clone, Copy, PartialEq, Eq, Structural, Debug)]
pub struct PixelFont {
    /// Index of the font in the registry.
    pub font_index: usize,
    /// Index of the chosen glyph set inside the font.
    pub glyphs_index: usize,
}

/// A font the software renderer can draw with.
pub enum Font {
    /// An embedded bitmap font.
    PixelFont(PixelFont),
}

impl BitmapFontRegistry {
    /// The registered fonts, abstractly.
    pub closed spec fn spec_fonts(&self) -> Seq<BitmapFont> {
        self.fonts@
    }

    /// All registered fonts are well-formed.
    pub open spec fn wf(&self) -> bool {
        forall|i: int| 0 <= i < self.spec_fonts().len() ==> (#[trigger] self.spec_fonts()[i]).wf()
    }

    /// An empty registry.
    pub fn new() -> (r: Self)
        ensures
            r.wf(),
            r.spec_fonts().len() == 0,
    {
        BitmapFontRegistry { fonts: Vec::new() }
    }

    /// Register one embedded bitmap font.
    pub fn register_bitmap_font(&mut self, font_data: BitmapFont)
        requires
            old(self).wf(),
            font_data.wf(),
        ensures
            final(self).wf(),
            final(self).spec_fonts() == old(self).spec_fonts().push(font_data),
    {
        let ghost fd = font_data;
        self.fonts.push(font_data);
        proof {
            assert forall|i: int|
                0 <= i < self.spec_fonts().len() implies (#[trigger] self.spec_fonts()[i]).wf() by {
                if i < old(self).spec_fonts().len() {
                    assert(self.spec_fonts()[i] == old(self).spec_fonts()[i]);
                } else {
                    assert(self.spec_fonts()[i] == fd);
                }
            }
        }
    }

    /// The number of registered fonts.
    pub fn len(&self) -> (r: usize)
        ensures
            r == self.spec_fonts().len(),
    {
        self.fonts.len()
    }
}

/// Match a font request against the registry: the font whose family the
/// request names, or the first registered font; inside it, the largest
/// glyph set not larger than the requested physical pixel size (the
/// smallest set when even it is larger).
#[verifier::loop_isolation(false)]
pub fn match_font(registry: &BitmapFontRegistry, request: &FontRequest, scale_factor: ScaleFactor)
    -> (r: Font)
    requires
        registry.wf(),
        registry.spec_fonts().len() > 0,
        scale_factor.is_valid(),
    ensures
        ({
            let req_px = clamp_to_u32(
                physical_of_logical(
                    (match request.pixel_size {
                        Some(s) => s,
                        None => DEFAULT_FONT_SIZE,
                    }) as int,
                    scale_factor.units as int,
                ),
            );
            match r {
                Font::PixelFont(pf) => {
                    &&& pf.font_index == (match request.family {
                        Some(fam) => (match find_family_from(registry.spec_fonts(), fam@, 0) {
                            Some(i) => i,
                            None => 0,
                        }),
                        None => 0,
                    })
                    &&& pf.font_index < registry.spec_fonts().len()
                    &&& pf.glyphs_index == spec_glyph_selection(
                        registry.spec_fonts()[pf.font_index as int].glyphs@,
                        req_px,
                    )
                    &&& pf.glyphs_index < registry.spec_fonts()[pf.font_index as int].glyphs@.len()
                },
            }
        }),
{
    let logical_size = match &request.pixel_size {
        Some(s) => *s,
        None => DEFAULT_FONT_SIZE,
    };
    let req_px_u32 = physical_extent_of_logical(logical_size, scale_factor);
    let req_px: i64 = req_px_u32 as i64;

    // Find the requested family, or fall back to the first font.
    let font_index: usize = match &request.family {
        Some(fam) => {
            let n = registry.fonts.len();
            let mut i: usize = 0;
            let mut found: usize = 0;
            let mut have: bool = false;
            while i < n && !have
                invariant
                    0 <= i <= n,
                    n == registry.spec_fonts().len(),
                    !have ==> find_family_from(registry.spec_fonts(), fam@, 0)
                        == find_family_from(registry.spec_fonts(), fam@, i as int),
                    have ==> find_family_from(registry.spec_fonts(), fam@, 0) == Some(
                        found as int,
                    ),
                    have ==> found < n,
                    !have ==> found == 0,
                decreases n - i + (if have { 0int } else { 1int }),
            {
                let fname = &registry.fonts[i].family_name;
                if *fname == *fam {
                    found = i;
                    have = true;
                } else {
                    i += 1;
                }
            }
            found
        },
        None => 0,
    };

    // Pick the glyph set: count how many are at most the requested size.
    let font = &registry.fonts[font_index];
    let m = font.glyphs.len();
    let mut count: usize = 0;
    let mut k: usize = 0;
    proof {
        assert(font.glyphs@.take(0) =~= Seq::<BitmapGlyphs>::empty());
    }
    while k < m
        invariant
            0 <= k <= m,
            m == font.glyphs@.len(),
            0 <= count <= k,
            count == count_sizes_at_most(font.glyphs@.take(k as int), req_px as int),
        decreases m - k,
    {
        proof {
            assert(font.glyphs@.take(k as int + 1).drop_last() =~= font.glyphs@.take(k as int));
            assert(font.glyphs@.take(k as int + 1).last() == font.glyphs@[k as int]);
        }
        if font.glyphs[k].pixel_size <= req_px {
            count += 1;
        }
        k += 1;
    }
    proof {
        assert(font.glyphs@.take(m as int) =~= font.glyphs@);
    }
    let glyphs_index = if count > 0 {
        count - 1
    } else {
        0
    };
    Font::PixelFont(PixelFont { font_index, glyphs_index })
}

/// An advance with letter spacing folded in, kept inside the layout
/// engine's bounds.
pub open spec fn clamp_advance(a: int) -> int {
    if a < 0 {
        0
    } else if a > MAX_DIMENSION {
        MAX_DIMENSION as int
    } else {
        a
    }
}

/// The measured font a matched bitmap font presents to the layout
/// engine: the chosen glyph set's metrics plus the request's letter
/// spacing, folded into every advance (clamped at zero, so a
/// pathological negative spacing cannot drive an advance negative).
#[verifier::loop_isolation(false)]
pub fn text_layout_for_font(
    registry: &BitmapFontRegistry,
    pixel_font: &PixelFont,
    font_request: &FontRequest,
    scale_factor: ScaleFactor,
) -> (r: TextFont)
    requires
        registry.wf(),
        pixel_font.font_index < registry.spec_fonts().len(),
        pixel_font.glyphs_index < registry.spec_fonts()[pixel_font.font_index as int].glyphs@.len(),
        scale_factor.is_valid(),
    ensures
        r.wf(),
        ({
            let g = registry.spec_fonts()[pixel_font.font_index as int].glyphs@[pixel_font.glyphs_index as int];
            let sp = match font_request.letter_spacing {
                Some(ls) => clamp_to_i32(physical_of_logical(ls as int, scale_factor.units as int)),
                None => 0,
            };
            &&& r.height == g.height
            &&& r.letter_spacing == 0
            &&& r.default_advance == clamp_advance(g.default_advance + sp)
            &&& r.advances@.len() == g.advances@.len()
            &&& forall|p: int|
                0 <= p < g.advances@.len() ==> (#[trigger] r.advances@[p]).0 == g.advances@[p].0
                    && r.advances@[p].1 == clamp_advance(g.advances@[p].1 + sp)
        }),
{
    let g = &registry.fonts[pixel_font.font_index].glyphs[pixel_font.glyphs_index];
    let spacing: i64 = match font_request.letter_spacing {
        Some(ls) => physical_coord_of_logical(ls, scale_factor) as i64,
        None => 0,
    };
    // Fold letter spacing into the advances so that a pathological
    // negative spacing cannot drive an advance below zero.
    let n = g.advances.len();
    let mut advances: Vec<(char, i64)> = Vec::new();
    let mut i: usize = 0;
    while i < n
        invariant
            0 <= i <= n,
            n == g.advances@.len(),
            -0x8000_0000 <= spacing <= 0x7fff_ffff,
            advances@.len() == i,
            forall|p: int|
                0 <= p < i ==> (#[trigger] advances@[p]).0 == g.advances@[p].0 && advances@[p].1
                    == clamp_advance(g.advances@[p].1 + spacing),
            forall|p: int|
                0 <= p < advances@.len() ==> 0 <= (#[trigger] advances@[p]).1 <= MAX_DIMENSION,
        decreases n - i,
    {
        let (c, a) = g.advances[i];
        let adjusted = a + spacing;
        let clamped = if adjusted < 0 {
            0
        } else if adjusted > MAX_DIMENSION {
            MAX_DIMENSION
        } else {
            adjusted
        };
        advances.push((c, clamped));
        i += 1;
    }
    let da = g.default_advance + spacing;
    let da_clamped = if da < 0 {
        0
    } else if da > MAX_DIMENSION {
        MAX_DIMENSION
    } else {
        da
    };
    let r = TextFont {
        height: g.height,
        default_advance: da_clamped,
        advances,
        letter_spacing: 0,
    };
    r
}

/// The relation between a glyph set and the measured font handed to the
/// layout engine: the same line height, letter spacing folded into every
/// advance.
pub open spec fn layout_font_of(g: BitmapGlyphs, sp: int, tf: TextFont) -> bool {
    &&& tf.height == g.height
    &&& tf.letter_spacing == 0
    &&& tf.default_advance == clamp_advance(g.default_advance + sp)
    &&& tf.advances@.len() == g.advances@.len()
    &&& forall|p: int|
        0 <= p < g.advances@.len() ==> (#[trigger] tf.advances@[p]).0 == g.advances@[p].0
            && tf.advances@[p].1 == clamp_advance(g.advances@[p].1 + sp)
}

/// The size of a block of text under a matched bitmap font, in logical
/// subpixel units: the matched font measures the text physically — with
/// word wrapping when a maximum width is given — and the result is
/// converted back by the scale factor.
#[verifier::loop_isolation(false)]
pub fn text_size(
    registry: &BitmapFontRegistry,
    font_request: &FontRequest,
    text: &Vec<char>,
    max_width: Option<u64>,
    scale_factor: ScaleFactor,
) -> (r: (u64, u64))
    requires
        registry.wf(),
        registry.spec_fonts().len() > 0,
        scale_factor.is_valid(),
        text@.len() <= MAX_TEXT_LEN,
    ensures
        exists|tf: TextFont|
            #[trigger] layout_font_of(
                chosen_glyphs(registry, font_request, scale_factor),
                request_spacing(font_request, scale_factor),
                tf,
            ) && tf.wf() && (match max_width {
                Some(w) => r.0 as int == clamp_to_u64(
                    logical_of_physical(
                        max_line_width_wrap(
                            tf,
                            text@,
                            0,
                            phys_max_width(w, scale_factor),
                        ),
                        scale_factor.units as int,
                    ),
                ) && r.1 as int == clamp_to_u64(
                    logical_of_physical(
                        count_lines_wrap(tf, text@, 0, phys_max_width(w, scale_factor))
                            * tf.height,
                        scale_factor.units as int,
                    ),
                ),
                None => r.0 as int == clamp_to_u64(
                    logical_of_physical(
                        max_line_width_nowrap(tf, text@, 0),
                        scale_factor.units as int,
                    ),
                ) && r.1 as int == clamp_to_u64(
                    logical_of_physical(
                        count_lines_nowrap(text@, 0) * tf.height,
                        scale_factor.units as int,
                    ),
                ),
            }),
{
    let matched = match_font(registry, font_request, scale_factor);
    let Font::PixelFont(pf) = matched;
    let tf = text_layout_for_font(registry, &pf, font_request, scale_factor);
    let phys_mw: Option<i64> = match max_width {
        Some(w) => {
            let p = physical_extent_of_logical(w, scale_factor);
            if p as i64 > MAX_DIMENSION {
                Some(MAX_DIMENSION)
            } else {
                Some(p as i64)
            }
        },
        None => None,
    };
    let (w_phys, h_phys) = crate::textlayout::text_size(&tf, text, phys_mw);
    proof {
        tf.lemma_measure_bounds(Seq::<char>::empty());
    }
    let w_log = logical_extent_of_physical_wide(w_phys, scale_factor);
    let h_log = logical_extent_of_physical_wide(h_phys, scale_factor);
    let r = (w_log, h_log);
    proof {
        assert(layout_font_of(
            chosen_glyphs(registry, font_request, scale_factor),
            request_spacing(font_request, scale_factor),
            tf,
        ));
    }
    r
}

/// The glyph set the matching rule picks for a request.
pub open spec fn chosen_glyphs(
    registry: &BitmapFontRegistry,
    request: &FontRequest,
    scale_factor: ScaleFactor,
) -> BitmapGlyphs {
    match match_font_spec(registry, request, scale_factor) {
        Font::PixelFont(pf) => registry.spec_fonts()[pf.font_index as int].glyphs@[pf.glyphs_index as int],
    }
}

/// The request's letter spacing in physical pixels.
pub open spec fn request_spacing(request: &FontRequest, scale_factor: ScaleFactor) -> int {
    match request.letter_spacing {
        Some(ls) => clamp_to_i32(physical_of_logical(ls as int, scale_factor.units as int)),
        None => 0,
    }
}

/// A logical maximum width in physical pixels, capped at the layout
/// engine's bound.
pub open spec fn phys_max_width(w: u64, scale_factor: ScaleFactor) -> int {
    let p = clamp_to_u32(physical_of_logical(w as int, scale_factor.units as int));
    if p > MAX_DIMENSION {
        MAX_DIMENSION as int
    } else {
        p
    }
}

/// What `match_font` selects, at the specification level.
pub open spec fn match_font_spec(
    registry: &BitmapFontRegistry,
    request: &FontRequest,
    scale_factor: ScaleFactor,
) -> Font {
    let req_px = clamp_to_u32(
        physical_of_logical(
            (match request.pixel_size {
                Some(s) => s,
                None => DEFAULT_FONT_SIZE,
            }) as int,
            scale_factor.units as int,
        ),
    );
    let fi = match request.family {
        Some(fam) => (match find_family_from(registry.spec_fonts(), fam@, 0) {
            Some(i) => i,
            None => 0,
        }),
        None => 0,
    };
    Font::PixelFont(
        PixelFont {
            font_index: fi as usize,
            glyphs_index: spec_glyph_selection(
                registry.spec_fonts()[fi as int].glyphs@,
                req_px,
            ) as usize,
        },
    )
}

} // verus!
