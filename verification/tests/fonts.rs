use ui_core::fontcache::FontCache;
use ui_core::fontcache::FontRequest;
use ui_core::fontcache::GlyphCoverageCheckResult;
use ui_core::fontcache::partition_required_coverage;
use ui_core::geometry::ScaleFactor;

// ---- A minimal TrueType builder: just enough tables for the face
// ---- database (name) and the coverage check (head, hhea, maxp, cmap).

fn push_u16(v: &mut Vec<u8>, x: u16) {
    v.extend_from_slice(&x.to_be_bytes());
}

fn push_u32(v: &mut Vec<u8>, x: u32) {
    v.extend_from_slice(&x.to_be_bytes());
}

fn push_i16(v: &mut Vec<u8>, x: i16) {
    v.extend_from_slice(&x.to_be_bytes());
}

fn head_table() -> Vec<u8> {
    let mut t = Vec::new();
    push_u32(&mut t, 0x0001_0000); // version
    push_u32(&mut t, 0x0001_0000); // font revision
    push_u32(&mut t, 0); // checksum adjustment
    push_u32(&mut t, 0x5F0F_3CF5); // magic
    push_u16(&mut t, 0); // flags
    push_u16(&mut t, 1000); // units per em
    t.extend_from_slice(&[0u8; 16]); // created + modified
    push_i16(&mut t, 0); // x min
    push_i16(&mut t, 0); // y min
    push_i16(&mut t, 1000); // x max
    push_i16(&mut t, 1000); // y max
    push_u16(&mut t, 0); // mac style
    push_u16(&mut t, 8); // lowest rec ppem
    push_i16(&mut t, 2); // font direction hint
    push_i16(&mut t, 0); // index to loc format
    push_i16(&mut t, 0); // glyph data format
    t
}

fn hhea_table() -> Vec<u8> {
    let mut t = Vec::new();
    push_u32(&mut t, 0x0001_0000);
    push_i16(&mut t, 800); // ascender
    push_i16(&mut t, -200); // descender
    push_i16(&mut t, 0); // line gap
    push_u16(&mut t, 500); // advance width max
    push_i16(&mut t, 0); // min left side bearing
    push_i16(&mut t, 0); // min right side bearing
    push_i16(&mut t, 500); // x max extent
    push_i16(&mut t, 1); // caret slope rise
    push_i16(&mut t, 0); // caret slope run
    push_i16(&mut t, 0); // caret offset
    for _ in 0..4 {
        push_i16(&mut t, 0); // reserved
    }
    push_i16(&mut t, 0); // metric data format
    push_u16(&mut t, 1); // number of h metrics
    t
}

fn maxp_table() -> Vec<u8> {
    let mut t = Vec::new();
    push_u32(&mut t, 0x0000_5000); // version 0.5
    push_u16(&mut t, 2); // glyph count
    t
}

/// A cmap with one format-12 subtable mapping each given inclusive range
/// of code points to glyph 1.
fn cmap_table(ranges: &[(u32, u32)]) -> Vec<u8> {
    let mut t = Vec::new();
    push_u16(&mut t, 0); // version
    push_u16(&mut t, 1); // one encoding record
    push_u16(&mut t, 3); // platform: windows
    push_u16(&mut t, 10); // encoding: full unicode
    push_u32(&mut t, 12); // subtable offset
    // Format 12 subtable.
    push_u16(&mut t, 12);
    push_u16(&mut t, 0);
    push_u32(&mut t, 16 + 12 * ranges.len() as u32);
    push_u32(&mut t, 0); // language
    push_u32(&mut t, ranges.len() as u32);
    for &(start, end) in ranges {
        push_u32(&mut t, start);
        push_u32(&mut t, end);
        push_u32(&mut t, 1); // start glyph id
    }
    t
}

/// A name table holding the family (id 1) and a PostScript name (id 6),
/// both as Windows Unicode strings.
fn name_table(family: &str) -> Vec<u8> {
    let fam_utf16: Vec<u8> = family.encode_utf16().flat_map(|u| u.to_be_bytes()).collect();
    let ps: String = family.chars().filter(|c| c.is_ascii_alphanumeric()).collect();
    let ps_utf16: Vec<u8> = ps.encode_utf16().flat_map(|u| u.to_be_bytes()).collect();
    let mut t = Vec::new();
    push_u16(&mut t, 0); // format
    push_u16(&mut t, 2); // count
    push_u16(&mut t, 6 + 2 * 12); // string storage offset
    // Record: family name.
    push_u16(&mut t, 3);
    push_u16(&mut t, 1);
    push_u16(&mut t, 0x0409);
    push_u16(&mut t, 1);
    push_u16(&mut t, fam_utf16.len() as u16);
    push_u16(&mut t, 0);
    // Record: PostScript name.
    push_u16(&mut t, 3);
    push_u16(&mut t, 1);
    push_u16(&mut t, 0x0409);
    push_u16(&mut t, 6);
    push_u16(&mut t, ps_utf16.len() as u16);
    push_u16(&mut t, fam_utf16.len() as u16);
    t.extend_from_slice(&fam_utf16);
    t.extend_from_slice(&ps_utf16);
    t
}

/// Assemble a font binary whose cmap covers the given code point ranges.
fn make_font(family: &str, ranges: &[(u32, u32)]) -> Vec<u8> {
    assemble(vec![
        (*b"cmap", cmap_table(ranges)),
        (*b"head", head_table()),
        (*b"hhea", hhea_table()),
        (*b"maxp", maxp_table()),
        (*b"name", name_table(family)),
    ])
}

/// A font the database indexes (its table directory and names parse) but
/// whose face itself does not: the head table is truncated.
fn make_broken_font(family: &str) -> Vec<u8> {
    assemble(vec![
        (*b"cmap", cmap_table(&[(0x41, 0x5A)])),
        (*b"head", head_table()[..10].to_vec()),
        (*b"hhea", hhea_table()),
        (*b"maxp", maxp_table()),
        (*b"name", name_table(family)),
    ])
}

fn assemble(tables: Vec<([u8; 4], Vec<u8>)>) -> Vec<u8> {
    let mut font = Vec::new();
    push_u32(&mut font, 0x0001_0000); // sfnt version
    push_u16(&mut font, tables.len() as u16);
    push_u16(&mut font, 64); // search range
    push_u16(&mut font, 2); // entry selector
    push_u16(&mut font, 16); // range shift
    let mut offset = 12 + 16 * tables.len() as u32;
    let mut records = Vec::new();
    let mut body = Vec::new();
    for (tag, data) in &tables {
        records.extend_from_slice(tag);
        push_u32(&mut records, 0); // checksum, not verified by the parser
        push_u32(&mut records, offset);
        push_u32(&mut records, data.len() as u32);
        let padded = (data.len() + 3) / 4 * 4;
        body.extend_from_slice(data);
        body.extend_from_slice(&vec![0u8; padded - data.len()]);
        offset += padded as u32;
    }
    font.extend_from_slice(&records);
    font.extend_from_slice(&body);
    font
}


const LATIN: &[(u32, u32)] = &[(0x41, 0x5A), (0x61, 0x7A)];
const CJK: &[(u32, u32)] = &[(0x4E00, 0x9FFF)];

fn cache_with_three_faces() -> FontCache {
    let mut cache = FontCache::new();
    cache.register_font_from_memory(make_font("LatinOnly", LATIN)).unwrap();
    cache.register_font_from_memory(make_font("HanFont", CJK)).unwrap();
    cache.register_font_from_memory(make_font("LatinToo", LATIN)).unwrap();
    cache.set_sans_serif_family(String::from("LatinOnly"));
    cache
}

fn plain_request() -> FontRequest {
    FontRequest { family: None, pixel_size: None, weight: None, letter_spacing: None }
}

#[test]
fn known_families_follow_registration() {
    let cache = cache_with_three_faces();
    assert!(cache.is_known_family(&String::from("LatinOnly")));
    assert!(cache.is_known_family(&String::from("HanFont")));
    assert!(!cache.is_known_family(&String::from("Nowhere")));
}

#[test]
fn fallback_families_filtered_to_known() {
    let mut cache = cache_with_three_faces();
    cache.set_fallback_families(vec![
        String::from("HanFont"),
        String::from("Missing"),
        String::from("LatinToo"),
    ]);
    let fallbacks = cache.font_fallbacks_for_request();
    assert_eq!(fallbacks, vec![String::from("HanFont"), String::from("LatinToo")]);
}

#[test]
fn load_single_font_caches_by_family_and_weight() {
    let mut cache = cache_with_three_faces();
    let a = cache.load_single_font(Some(&String::from("HanFont")), 400).unwrap();
    let b = cache.load_single_font(Some(&String::from("HanFont")), 400).unwrap();
    assert_eq!(a, b);
    let c = cache.load_single_font(None, 400).unwrap();
    assert_ne!(a.face_index, c.face_index);
    // An unknown family falls back to the sans-serif face.
    let d = cache.load_single_font(Some(&String::from("Nowhere")), 400).unwrap();
    assert_eq!(c.face_index, d.face_index);
}

#[test]
fn partition_splits_scripts_and_common_chars() {
    let text: Vec<char> = "Hi 1中".chars().collect();
    let (scripts, chars) = partition_required_coverage(&text);
    // Two real scripts (Latin, Han), each with a sample from the text;
    // the digit belongs to the Common script and is tracked per
    // character; the space is skipped.
    assert_eq!(scripts.len(), 2);
    assert!(scripts.iter().any(|e| e.1 == 'H'));
    assert!(scripts.iter().any(|e| e.1 == '中'));
    assert_eq!(chars, vec!['1']);
}

#[test]
fn coverage_fallback_keeps_only_improving_faces() {
    let mut cache = cache_with_three_faces();
    cache.set_fallback_families(vec![String::from("HanFont"), String::from("LatinToo")]);
    let text: Vec<char> = "He中".chars().collect();
    let font = cache.font(&plain_request(), ScaleFactor::new(65536), &text).unwrap();
    // The primary face covers Latin; the first fallback adds the Han
    // ideograph and completes coverage; the second is never consulted.
    assert_eq!(font.fonts.len(), 2);
    assert_eq!(font.fonts[0], 0);
    assert_eq!(font.fonts[1], 1);
}

#[test]
fn coverage_rejects_face_adding_nothing() {
    let mut cache = cache_with_three_faces();
    // Try the Latin-again face first: it adds nothing and is rejected;
    // the Han face then improves coverage and is kept.
    cache.set_fallback_families(vec![String::from("LatinToo"), String::from("HanFont")]);
    let text: Vec<char> = "He中".chars().collect();
    let font = cache.font(&plain_request(), ScaleFactor::new(65536), &text).unwrap();
    assert_eq!(font.fonts.len(), 2);
    assert_eq!(font.fonts[0], 0);
    assert_eq!(font.fonts[1], 1);
}

#[test]
fn coverage_check_results_classify() {
    let mut cache = cache_with_three_faces();
    let text: Vec<char> = "He中".chars().collect();
    let (mut scripts, mut chars) = partition_required_coverage(&text);
    // The Latin face covers the Latin sample but not the Han one.
    let r1 = cache.check_and_update_script_coverage(&mut scripts, &mut chars, 0);
    assert_eq!(r1, GlyphCoverageCheckResult::Improved);
    assert_eq!(scripts.len(), 1);
    // The same face again: nothing shrinks.
    let r2 = cache.check_and_update_script_coverage(&mut scripts, &mut chars, 0);
    assert_eq!(r2, GlyphCoverageCheckResult::Incomplete);
    // The Han face finishes the job.
    let r3 = cache.check_and_update_script_coverage(&mut scripts, &mut chars, 1);
    assert_eq!(r3, GlyphCoverageCheckResult::Complete);
    assert_eq!(scripts.len(), 0);
}

#[test]
fn unparsable_face_covers_nothing() {
    let mut cache = FontCache::new();
    cache.register_font_from_memory(make_font("Good", LATIN)).unwrap();
    cache.set_sans_serif_family(String::from("Good"));
    // A face that parses for the database but whose coverage probe sees
    // no cmap entry for the script sample is simply not kept; an invalid
    // blob is rejected by the database outright, registers no face, and
    // the registration reports the failure.
    assert!(cache.register_font_from_memory(vec![1, 2, 3, 4]).is_err());
    assert!(!cache.is_known_family(&String::from("Bad")));
    let text: Vec<char> = "Zz".chars().collect();
    let font = cache.font(&plain_request(), ScaleFactor::new(65536), &text).unwrap();
    assert_eq!(font.fonts.len(), 1);
}

#[test]
fn font_resolves_pixel_size_with_scale() {
    let mut cache = cache_with_three_faces();
    let text: Vec<char> = "a".chars().collect();
    let req = FontRequest {
        family: None,
        pixel_size: Some(10 * 65536),
        weight: None,
        letter_spacing: None,
    };
    let font = cache.font(&req, ScaleFactor::new(2 * 65536), &text).unwrap();
    assert_eq!(font.pixel_size, 20);
    // The default size is twelve logical pixels.
    let font2 = cache.font(&plain_request(), ScaleFactor::new(65536), &text).unwrap();
    assert_eq!(font2.pixel_size, 12);
}

#[test]
fn register_font_from_path_is_not_supported() {
    let mut cache = FontCache::new();
    assert!(cache.register_font_from_path("/tmp/somewhere.ttf").is_err());
}

#[test]
fn empty_cache_loads_nothing() {
    let mut cache = FontCache::new();
    assert!(cache.load_single_font(None, 400).is_none());
    let text: Vec<char> = "x".chars().collect();
    assert!(cache.font(&plain_request(), ScaleFactor::new(65536), &text).is_none());
}

#[test]
fn parse_failure_treated_as_covering_nothing() {
    let mut cache = FontCache::new();
    cache.register_font_from_memory(make_font("LatinOnly", LATIN)).unwrap();
    cache.register_font_from_memory(make_broken_font("Broken")).unwrap();
    cache.register_font_from_memory(make_font("HanFont", CJK)).unwrap();
    cache.set_sans_serif_family(String::from("LatinOnly"));
    // The broken face is in the database, so it is tried as a fallback;
    // its coverage probe fails to parse it, it covers nothing and is
    // excluded from the chain.
    assert!(cache.is_known_family(&String::from("Broken")));
    cache.set_fallback_families(vec![String::from("Broken"), String::from("HanFont")]);
    let text: Vec<char> = "He中".chars().collect();
    let font = cache.font(&plain_request(), ScaleFactor::new(65536), &text).unwrap();
    assert_eq!(font.fonts, vec![0, 2]);
}

#[test]
fn empty_layout_cache_still_resolves_after_hit() {
    // A cached (family, weight) pair answers from the cache: the second
    // load returns the same face even after more fonts were registered.
    let mut cache = cache_with_three_faces();
    let first = cache.load_single_font(Some(&String::from("LatinOnly")), 400).unwrap();
    cache.register_font_from_memory(make_font("LatinOnly", LATIN)).unwrap();
    let second = cache.load_single_font(Some(&String::from("LatinOnly")), 400).unwrap();
    assert_eq!(first, second);
}

#[test]
fn source_key_registration_deduplicates() {
    let mut cache = FontCache::new();
    let loaded = cache
        .register_font_with_source_key(String::from("k:latin"), make_font("LatinOnly", LATIN))
        .unwrap();
    assert!(loaded);
    let count_after_first = {
        cache.set_sans_serif_family(String::from("LatinOnly"));
        cache.load_single_font(None, 400).unwrap().face_index
    };
    // The same source key again: skipped, no duplicate faces.
    let again = cache
        .register_font_with_source_key(String::from("k:latin"), make_font("LatinOnly", LATIN))
        .unwrap();
    assert!(!again);
    let c = cache.load_single_font(None, 400).unwrap();
    assert_eq!(c.face_index, count_after_first);
    // A fresh key with an invalid blob errs and records nothing usable.
    assert!(cache
        .register_font_with_source_key(String::from("k:bad"), vec![9, 9, 9])
        .is_err());
}
