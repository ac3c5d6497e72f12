//! The font cache: canonical (family, weight) face loading and the
//! coverage-driven fallback chain.
//!
//! Font binaries are registered with the cache; the face database (fontdb)
//! indexes them and answers CSS-like queries.  For a font request and a
//! reference string, the cache loads a primary face, partitions the
//! reference text into required scripts and individual characters, and
//! walks platform fallback families, keeping exactly those faces that
//! strictly shrink the still-uncovered sets.  Per-face glyph coverage is
//! asked of the face's cmap (through ttf-parser) once per script or
//! character and memoized for the cache's lifetime.

use vstd::prelude::*;
use unicode_script::UnicodeScript;
use crate::geometry::ScaleFactor;
use crate::geometry::clamp_to_u32;
use crate::geometry::physical_of_logical;
use crate::geometry::physical_extent_of_logical;

verus! {

/// The pixel size used when a request names none: twelve logical pixels,
/// in subpixel units.
pub const DEFAULT_FONT_SIZE: u64 = 12 * 65536;

/// The weight used when a request names none (CSS normal).
pub const DEFAULT_FONT_WEIGHT: u16 = 400;

/// Script classes at or above this value are the Inherited, Common and
/// Unknown scripts (0xFD, 0xFE and 0xFF), whose coverage varies per
/// character; all real scripts lie below it.
pub const FIRST_GENERIC_SCRIPT: u8 = 0xFD;

#[verifier::external_type_specification]
#[verifier::external_body]
/// The face database of the fontdb crate, held opaquely.
pub struct ExDatabase(fontdb::Database);

#[verifier::external_type_specification]
#[verifier::external_body]
/// A face id of the fontdb crate, held opaquely.
pub struct ExFontdbId(fontdb::ID);

/// Whether the face at `index` inside the font binary `data` has a glyph
/// for `c`; `None` when the face does not parse.  A pure function of the
/// bytes.
pub uninterp spec fn face_glyph_coverage(data: Seq<u8>, index: u32, c: char) -> Option<bool>;

/// What the face database holds under an id: the face's first family
/// name, weight and collection index, or nothing for an id the database
/// does not know.  The database is a value, so this is a function of the
/// pair.
pub uninterp spec fn db_face_record(db: fontdb::Database, id: fontdb::ID) -> Option<
    (Seq<char>, u16, u32),
>;

/// The record of the face a CSS-like query selects for a family (the
/// sans-serif family when none is named) and weight; the query walks the
/// database value deterministically.
pub uninterp spec fn db_query_record(
    db: fontdb::Database,
    family: Option<Seq<char>>,
    weight: u16,
) -> Option<(Seq<char>, u16, u32)>;

/// The faces the database parses out of a font binary, in collection
/// order, entries that fail to parse skipped: first family name, weight
/// and collection index each.  A pure function of the bytes.
pub uninterp spec fn db_faces_of(data: Seq<u8>) -> Seq<(Seq<char>, u16, u32)>;

/// The family name the database resolves sans-serif queries to.
pub uninterp spec fn db_sans_serif_name(db: fontdb::Database) -> Seq<char>;

/// The Unicode script class of a character, as the unicode_script crate's
/// `Script` enum represents it in its `u8` form.  Values 0xFD, 0xFE and
/// 0xFF are Inherited, Common and Unknown, per that crate's declaration.
pub uninterp spec fn script_class(c: char) -> u8;

/// Whether a character is a Unicode control character: std defines the
/// property as the two control ranges.
pub open spec fn char_is_control(c: char) -> bool {
    (c as u32) <= 0x1F || (0x7F <= (c as u32) && (c as u32) <= 0x9F)
}

/// Whether a character is Unicode whitespace.
pub uninterp spec fn char_is_whitespace(c: char) -> bool;

/// Relies on fontdb's `Database::new`: an empty face database.
#[verifier::external_body]
fn db_new() -> fontdb::Database {
    fontdb::Database::new()
}

/// Relies on fontdb's `Database::load_font_source`: inserts every face
/// that parses out of the binary, in collection order, under fresh ids,
/// and leaves existing faces untouched.
#[verifier::external_body]
fn db_load_font_data(db: &mut fontdb::Database, data: Vec<u8>) -> (r: Vec<fontdb::ID>)
    ensures
        r@.len() == db_faces_of(data@).len(),
        forall|k: int|
            0 <= k < r@.len() ==> db_face_record(*final(db), #[trigger] r@[k]) == Some(
                db_faces_of(data@)[k],
            ),
        forall|k: int|
            0 <= k < r@.len() ==> db_face_record(*old(db), #[trigger] r@[k]) is None,
        forall|id: fontdb::ID|
            db_face_record(*old(db), id) is Some ==> #[trigger] db_face_record(*final(db), id)
                == db_face_record(*old(db), id),
{
    let ids = db.load_font_source(fontdb::Source::Binary(std::sync::Arc::new(data)));
    ids.into_iter().collect()
}

/// Relies on fontdb's `Database::face`: the family name, weight and
/// collection index recorded for a face id.
#[verifier::external_body]
fn db_face_info(db: &fontdb::Database, id: &fontdb::ID) -> (r: Option<(String, u16, u32)>)
    ensures
        match r {
            Some(info) => db_face_record(*db, *id) == Some((info.0@, info.1, info.2)),
            None => db_face_record(*db, *id) is None,
        },
{
    db.face(*id).map(
        |f|
            (
                f.families.first().map(|p| p.0.clone()).unwrap_or(String::new()),
                f.weight.0,
                f.index,
            ),
    )
}

/// Relies on fontdb's `Database::query`: the best CSS-like match for a
/// family (the sans-serif family when none is named) and weight.  The
/// query iterates the database's storage deterministically, and the id it
/// returns is one of its own faces.
#[verifier::external_body]
fn db_query(db: &fontdb::Database, family: Option<&String>, weight: u16) -> (r: Option<
    fontdb::ID,
>)
    ensures
        match r {
            Some(id) => db_query_record(*db, spec_opt_family(family), weight) is Some
                && db_face_record(*db, id) == db_query_record(
                *db,
                spec_opt_family(family),
                weight,
            ),
            None => db_query_record(*db, spec_opt_family(family), weight) is None,
        },
{
    let fam = match family {
        Some(f) => fontdb::Family::Name(f.as_str()),
        None => fontdb::Family::SansSerif,
    };
    db.query(
        &fontdb::Query {
            families: &[fam],
            weight: fontdb::Weight(weight),
            ..fontdb::Query::default()
        },
    )
}

/// The family view a query is made with.
pub open spec fn spec_opt_family(family: Option<&String>) -> Option<Seq<char>> {
    match family {
        Some(f) => Some(f@),
        None => None,
    }
}

/// Relies on fontdb's `Database::set_sans_serif_family`: only the name
/// that sans-serif queries resolve to changes; the stored faces stay as
/// they are.
#[verifier::external_body]
fn db_set_sans_serif(db: &mut fontdb::Database, name: String)
    ensures
        db_sans_serif_name(*final(db)) == name@,
        forall|id: fontdb::ID|
            #[trigger] db_face_record(*final(db), id) == db_face_record(*old(db), id),
{
    db.set_sans_serif_family(name);
}

/// Relies on fontdb ID's derived equality: a plain-data slotmap key.
#[verifier::external_body]
fn id_eq(a: &fontdb::ID, b: &fontdb::ID) -> (r: bool)
    ensures
        r == (*a == *b),
{
    a == b
}

/// Relies on ttf_parser's `Face::parse` and `Face::glyph_index`: consults
/// the cmap of the face at `index` in `data` for a glyph for `c`; `None`
/// when the face does not parse.
#[verifier::external_body]
fn face_covers_char(data: &Vec<u8>, index: u32, c: char) -> (r: Option<bool>)
    ensures
        r == face_glyph_coverage(data@, index, c),
{
    match ttf_parser::Face::parse(data.as_slice(), index) {
        Ok(f) => Some(f.glyph_index(c).is_some()),
        Err(_) => None,
    }
}

/// Relies on unicode_script's `Script` property of a character, as `u8`.
#[verifier::external_body]
fn script_class_of(c: char) -> (r: u8)
    ensures
        r == script_class(c),
{
    c.script() as u8
}

/// Relies on `char::is_control` of std: true exactly on the two control
/// ranges, as its documentation states.
#[verifier::external_body]
fn is_control_char(c: char) -> (r: bool)
    ensures
        r == char_is_control(c),
{
    c.is_control()
}

/// Relies on `char::is_whitespace` of std.
#[verifier::external_body]
fn is_whitespace_char(c: char) -> (r: bool)
    ensures
        r == char_is_whitespace(c),
{
    c.is_whitespace()
}

/// A character of the reference text takes no part in coverage: control
/// and whitespace characters are excluded.
pub open spec fn skip_char(c: char) -> bool {
    char_is_control(c) || char_is_whitespace(c)
}

/// A character whose script gives no information: Inherited, Common or
/// Unknown, checked per character instead.
pub open spec fn generic_script(c: char) -> bool {
    script_class(c) >= FIRST_GENERIC_SCRIPT
}

/// Why registering a font failed.
#[derive(Clone, Copy, PartialEq, Eq, Structural, Debug)]
pub enum FontRegisterError {
    /// Fonts cannot be registered from a path here: the cache takes font
    /// binaries from memory, and reading files belongs to the host.
    PathsUnsupported,
    /// No face could be parsed out of the given binary.
    InvalidFontData,
}

/// One cached loaded face: its index in the cache's face table, which also
/// serves as the text engine's face id.
#[derive(Clone, Copy, PartialEq, Eq, Structural, Debug)]
pub struct LoadedFont {
    /// Index into the cache's face table.
    pub face_index: usize,
}

/// The effect of consulting one more face on the residual uncovered
/// script and character sets.
#[derive(Clone, Copy, PartialEq, Eq, Structural, Debug)]
pub enum GlyphCoverageCheckResult {
    /// Nothing became covered.
    Incomplete,
    /// At least one residual set shrank, but something is still uncovered.
    Improved,
    /// Both residual sets are empty.
    Complete,
}

/// A font request: an optional family (matched against the face
/// database), an optional pixel size in logical subpixel units, an
/// optional weight and an optional letter spacing.
pub struct FontRequest {
    /// The family name, or `None` for the sans-serif family.
    pub family: Option<String>,
    /// The pixel size in logical subpixel units; twelve pixels if `None`.
    pub pixel_size: Option<u64>,
    /// The weight; 400 if `None`.
    pub weight: Option<u16>,
    /// Letter spacing in logical subpixel units; zero if `None`.
    pub letter_spacing: Option<i64>,
}

/// The last recorded coverage for a (face, script) key, scanning the memo
/// from its end.
pub open spec fn script_memo_get(m: Seq<((usize, u8), bool)>, face: int, k: u8) -> Option<bool>
    decreases m.len(),
{
    if m.len() == 0 {
        None
    } else if m.last().0.0 as int == face && m.last().0.1 == k {
        Some(m.last().1)
    } else {
        script_memo_get(m.drop_last(), face, k)
    }
}

/// The last recorded coverage for a (face, character) key.
pub open spec fn char_memo_get(m: Seq<((usize, char), bool)>, face: int, c: char) -> Option<bool>
    decreases m.len(),
{
    if m.len() == 0 {
        None
    } else if m.last().0.0 as int == face && m.last().0.1 == c {
        Some(m.last().1)
    } else {
        char_memo_get(m.drop_last(), face, c)
    }
}

/// Whether the memo and the face's cmap together say the face covers the
/// sample character of a required script entry: the memoized answer where
/// one exists, a fresh cmap probe otherwise.
pub open spec fn covered_script(
    m: Seq<((usize, u8), bool)>,
    data: Seq<u8>,
    ttc: u32,
    face: int,
    e: (u8, char),
) -> bool {
    match script_memo_get(m, face, e.0) {
        Some(b) => b,
        None => face_glyph_coverage(data, ttc, e.1) == Some(true),
    }
}

/// The same decision for one required character.
pub open spec fn covered_char(
    m: Seq<((usize, char), bool)>,
    data: Seq<u8>,
    ttc: u32,
    face: int,
    c: char,
) -> bool {
    match char_memo_get(m, face, c) {
        Some(b) => b,
        None => face_glyph_coverage(data, ttc, c) == Some(true),
    }
}

/// The required-script entries whose key the memo does not know yet:
/// exactly these cost a cmap probe.
pub open spec fn pending_scripts(
    m: Seq<((usize, u8), bool)>,
    face: int,
    sw: Seq<(u8, char)>,
) -> Seq<(u8, char)>
    decreases sw.len(),
{
    if sw.len() == 0 {
        Seq::empty()
    } else {
        let pre = pending_scripts(m, face, sw.drop_last());
        if script_memo_get(m, face, sw.last().0) is None {
            pre.push(sw.last())
        } else {
            pre
        }
    }
}

/// The required characters the memo does not know yet.
pub open spec fn pending_chars(
    m: Seq<((usize, char), bool)>,
    face: int,
    cw: Seq<char>,
) -> Seq<char>
    decreases cw.len(),
{
    if cw.len() == 0 {
        Seq::empty()
    } else {
        let pre = pending_chars(m, face, cw.drop_last());
        if char_memo_get(m, face, cw.last()) is None {
            pre.push(cw.last())
        } else {
            pre
        }
    }
}

/// No two required-script entries share a script key.
pub open spec fn unique_script_keys(s: Seq<(u8, char)>) -> bool {
    forall|i: int, j: int| 0 <= i < j < s.len() ==> (#[trigger] s[i]).0 != (#[trigger] s[j]).0
}

/// No character occurs twice.
pub open spec fn unique_chars(s: Seq<char>) -> bool {
    forall|i: int, j: int| 0 <= i < j < s.len() ==> #[trigger] s[i] != #[trigger] s[j]
}

/// Exec lookup in the script memo, scanning from the end.
fn script_memo_lookup(m: &Vec<((usize, u8), bool)>, face: usize, k: u8) -> (r: Option<bool>)
    ensures
        r == script_memo_get(m@, face as int, k),
{
    let mut i = m.len();
    proof {
        assert(m@.take(m@.len() as int) =~= m@);
    }
    while i > 0
        invariant
            i <= m@.len(),
            script_memo_get(m@, face as int, k) == script_memo_get(m@.take(i as int), face as int, k),
        decreases i,
    {
        i -= 1;
        proof {
            assert(m@.take(i as int + 1).drop_last() =~= m@.take(i as int));
            assert(m@.take(i as int + 1).last() == m@[i as int]);
        }
        let e = m[i];
        if e.0.0 == face && e.0.1 == k {
            return Some(e.1);
        }
    }
    proof {
        assert(m@.take(0) =~= Seq::<((usize, u8), bool)>::empty());
    }
    None
}

/// Exec lookup in the character memo, scanning from the end.
fn char_memo_lookup(m: &Vec<((usize, char), bool)>, face: usize, c: char) -> (r: Option<bool>)
    ensures
        r == char_memo_get(m@, face as int, c),
{
    let mut i = m.len();
    proof {
        assert(m@.take(m@.len() as int) =~= m@);
    }
    while i > 0
        invariant
            i <= m@.len(),
            char_memo_get(m@, face as int, c) == char_memo_get(m@.take(i as int), face as int, c),
        decreases i,
    {
        i -= 1;
        proof {
            assert(m@.take(i as int + 1).drop_last() =~= m@.take(i as int));
            assert(m@.take(i as int + 1).last() == m@[i as int]);
        }
        let e = m[i];
        if e.0.0 == face && e.0.1 == c {
            return Some(e.1);
        }
    }
    proof {
        assert(m@.take(0) =~= Seq::<((usize, char), bool)>::empty());
    }
    None
}

/// The cached face for a (family, weight) key, scanning from the end; the
/// empty family stands for a request without one.
pub open spec fn font_cache_get(
    c: Seq<(String, u16, LoadedFont)>,
    fam: Seq<char>,
    w: u16,
) -> Option<LoadedFont>
    decreases c.len(),
{
    if c.len() == 0 {
        None
    } else if c.last().0@ == fam && c.last().1 == w {
        Some(c.last().2)
    } else {
        font_cache_get(c.drop_last(), fam, w)
    }
}

/// The process-wide (per rendering thread) font cache: loaded faces by
/// (family, weight), per-face coverage memos, the face database, the known
/// family names and the platform fallback family list.
pub struct FontCache {
    loaded_fonts: Vec<(String, u16, LoadedFont)>,
    script_coverage: Vec<((usize, u8), bool)>,
    char_coverage: Vec<((usize, char), bool)>,
    available_fonts: fontdb::Database,
    face_ids: Vec<fontdb::ID>,
    face_families: Vec<String>,
    face_weights: Vec<u16>,
    face_ttc_indices: Vec<u32>,
    face_blobs: Vec<usize>,
    blobs: Vec<Vec<u8>>,
    available_families: Vec<String>,
    fallback_families: Vec<String>,
    registered_sources: Vec<String>,
    cmap_probes: Ghost<nat>,
}

impl FontCache {
    /// The number of registered faces.
    pub closed spec fn face_count(&self) -> nat {
        self.face_ids@.len()
    }

    /// The script coverage memo, abstractly.
    pub closed spec fn script_memo(&self) -> Seq<((usize, u8), bool)> {
        self.script_coverage@
    }

    /// The character coverage memo, abstractly.
    pub closed spec fn char_memo(&self) -> Seq<((usize, char), bool)> {
        self.char_coverage@
    }

    /// The loaded-face cache, abstractly.
    pub closed spec fn cache_entries(&self) -> Seq<(String, u16, LoadedFont)> {
        self.loaded_fonts@
    }

    /// The family names with at least one face in the database.
    pub closed spec fn family_names(&self) -> Seq<Seq<char>> {
        self.available_families@.map(|i: int, s: String| s@)
    }

    /// The platform fallback family list, in the platform's order.
    pub closed spec fn fallback_names(&self) -> Seq<Seq<char>> {
        self.fallback_families@.map(|i: int, s: String| s@)
    }

    /// How many cmap probes the cache has made: each asks a face's cmap
    /// for one character, and each key is probed at most once.
    pub closed spec fn probes(&self) -> nat {
        self.cmap_probes@
    }

    /// The font binary backing a face, with the face's index inside it.
    pub closed spec fn face_data(&self, face: int) -> Seq<u8> {
        self.blobs@[self.face_blobs@[face] as int]@
    }

    /// The collection index of a face inside its binary.
    pub closed spec fn face_ttc_index(&self, face: int) -> u32 {
        self.face_ttc_indices@[face]
    }

    /// The recorded metadata of a face: family name, weight and
    /// collection index, as the database reported them at registration.
    pub closed spec fn face_row(&self, face: int) -> (Seq<char>, u16, u32) {
        (self.face_families@[face]@, self.face_weights@[face], self.face_ttc_indices@[face])
    }

    /// The face database value the cache holds.
    pub closed spec fn db(&self) -> fontdb::Database {
        self.available_fonts
    }

    /// The face table's database ids, in registration order.
    pub closed spec fn face_ids_view(&self) -> Seq<fontdb::ID> {
        self.face_ids@
    }

    /// A family name is known: some registered face carries it.
    pub closed spec fn known_family(&self, fam: Seq<char>) -> bool {
        exists|j: int|
            0 <= j < self.available_families@.len() && (#[trigger] self.available_families@[j])@
                == fam
    }

    /// Internal consistency: the face table's columns agree, every face
    /// points into the blob store, and every cached font names a face.
    pub closed spec fn wf(&self) -> bool {
        &&& self.face_families@.len() == self.face_ids@.len()
        &&& self.face_weights@.len() == self.face_ids@.len()
        &&& self.face_ttc_indices@.len() == self.face_ids@.len()
        &&& self.face_blobs@.len() == self.face_ids@.len()
        &&& forall|i: int|
            0 <= i < self.face_blobs@.len() ==> (#[trigger] self.face_blobs@[i]) < self.blobs@.len()
        &&& forall|i: int|
            0 <= i < self.loaded_fonts@.len() ==> (#[trigger] self.loaded_fonts@[i]).2.face_index
                < self.face_ids@.len()
        &&& forall|i: int|
            0 <= i < self.face_ids@.len() ==> db_face_record(
                self.available_fonts,
                #[trigger] self.face_ids@[i],
            ) == Some(self.face_row(i))
    }

    /// A new, empty cache around an empty face database.
    pub fn new() -> (r: Self)
        ensures
            r.wf(),
            r.face_count() == 0,
            r.cache_entries().len() == 0,
            r.script_memo().len() == 0,
            r.char_memo().len() == 0,
            r.family_names().len() == 0,
            r.fallback_names().len() == 0,
            r.probes() == 0,
    {
        let r = FontCache {
            loaded_fonts: Vec::new(),
            script_coverage: Vec::new(),
            char_coverage: Vec::new(),
            available_fonts: db_new(),
            face_ids: Vec::new(),
            face_families: Vec::new(),
            face_weights: Vec::new(),
            face_ttc_indices: Vec::new(),
            face_blobs: Vec::new(),
            blobs: Vec::new(),
            available_families: Vec::new(),
            fallback_families: Vec::new(),
            registered_sources: Vec::new(),
            cmap_probes: Ghost(0),
        };
        proof {
            assert(r.family_names() =~= Seq::<Seq<char>>::empty());
            assert(r.fallback_names() =~= Seq::<Seq<char>>::empty());
        }
        r
    }

    /// Install the platform's fallback family list, in the order the
    /// platform source returned it.
    pub fn set_fallback_families(&mut self, families: Vec<String>)
        requires
            old(self).wf(),
        ensures
            final(self).wf(),
            final(self).fallback_names() == families@.map(|i: int, s: String| s@),
            final(self).family_names() == old(self).family_names(),
            final(self).face_count() == old(self).face_count(),
            final(self).cache_entries() == old(self).cache_entries(),
            final(self).script_memo() == old(self).script_memo(),
            final(self).char_memo() == old(self).char_memo(),
    {
        self.fallback_families = families;
    }

    /// Name the family that sans-serif queries resolve to.  A face of this
    /// family should be registered: the cache treats its absence as a
    /// configuration error and lets lookups fail.
    pub fn set_sans_serif_family(&mut self, name: String)
        requires
            old(self).wf(),
        ensures
            final(self).wf(),
            db_sans_serif_name(final(self).db()) == name@,
            final(self).face_ids_view() == old(self).face_ids_view(),
            final(self).fallback_names() == old(self).fallback_names(),
            final(self).family_names() == old(self).family_names(),
            final(self).face_count() == old(self).face_count(),
            final(self).cache_entries() == old(self).cache_entries(),
            final(self).script_memo() == old(self).script_memo(),
            final(self).char_memo() == old(self).char_memo(),
    {
        db_set_sans_serif(&mut self.available_fonts, name);
    }

    /// The source keys under which fonts were registered, in order.
    pub closed spec fn source_keys(&self) -> Seq<Seq<char>> {
        self.registered_sources@.map_values(|s: String| s@)
    }

    /// Register a font binary under a source key — a canonical name for
    /// where the bytes came from, such as a canonicalized path.  A key
    /// already registered is skipped, so re-registering the same source
    /// does not duplicate its faces; a fresh key records the key and
    /// registers the binary.  Returns whether the binary was loaded.
    #[verifier::loop_isolation(false)]
    pub fn register_font_with_source_key(&mut self, source_key: String, data: Vec<u8>) -> (r:
        Result<bool, FontRegisterError>)
        requires
            old(self).wf(),
        ensures
            final(self).wf(),
            old(self).source_keys().contains(source_key@) ==> r == Result::<
                bool,
                FontRegisterError,
            >::Ok(false) && *final(self) == *old(self),
            !old(self).source_keys().contains(source_key@) ==> {
                &&& final(self).source_keys() == old(self).source_keys().push(source_key@)
                &&& final(self).face_count() == old(self).face_count() + db_faces_of(
                    data@,
                ).len()
                &&& (r is Err <==> db_faces_of(data@).len() == 0)
                &&& (r is Ok ==> r == Result::<bool, FontRegisterError>::Ok(true))
            },
            final(self).cache_entries() == old(self).cache_entries(),
            final(self).script_memo() == old(self).script_memo(),
            final(self).char_memo() == old(self).char_memo(),
            final(self).fallback_names() == old(self).fallback_names(),
            forall|fam: Seq<char>| old(self).known_family(fam) ==> final(self).known_family(fam),
    {
        let n = self.registered_sources.len();
        let mut i: usize = 0;
        while i < n
            invariant
                0 <= i <= n,
                n == self.registered_sources@.len(),
                forall|j: int|
                    0 <= j < i ==> (#[trigger] self.registered_sources@[j])@ != source_key@,
            decreases n - i,
        {
            let e: &String = &self.registered_sources[i];
            if *e == source_key {
                proof {
                    assert(self.source_keys()[i as int] == source_key@);
                }
                return Ok(false);
            }
            i += 1;
        }
        proof {
            if self.source_keys().contains(source_key@) {
                let j0 = choose|j0: int|
                    0 <= j0 < self.source_keys().len() && #[trigger] self.source_keys()[j0]
                        == source_key@;
                assert((self.registered_sources@[j0])@ == source_key@);
            }
        }
        let ghost keys_prev = self.registered_sources@;
        self.registered_sources.push(source_key);
        proof {
            assert(self.source_keys() =~= keys_prev.map_values(|s: String| s@).push(
                self.registered_sources@.last()@,
            ));
            assert forall|fam: Seq<char>|
                old(self).known_family(fam) implies self.known_family(fam) by {
                let j0 = choose|j0: int|
                    0 <= j0 < old(self).available_families@.len() && (old(
                        self,
                    ).available_families@[j0])@ == fam;
                assert((self.available_families@[j0])@ == fam);
            }
        }
        match self.register_font_from_memory(data) {
            Ok(()) => Ok(true),
            Err(e) => Err(e),
        }
    }

    /// Registering a font by path: the cache holds font binaries handed
    /// to it in memory, and file access belongs to the host, so this
    /// always fails; the host reads the file and calls
    /// `register_font_from_memory`.
    pub fn register_font_from_path(&mut self, _path: &str) -> (r: Result<
        (),
        FontRegisterError,
    >)
        requires
            old(self).wf(),
        ensures
            final(self).wf(),
            r == Result::<(), FontRegisterError>::Err(FontRegisterError::PathsUnsupported),
            *final(self) == *old(self),
    {
        Err(FontRegisterError::PathsUnsupported)
    }

    /// Whether a family name has at least one face in the database; the
    /// match is exact, as the database records family names.
    pub fn is_known_family(&self, family: &String) -> (r: bool)
        ensures
            r == self.known_family(family@),
    {
        let n = self.available_families.len();
        let mut i: usize = 0;
        while i < n
            invariant
                0 <= i <= n,
                n == self.available_families@.len(),
                forall|j: int| 0 <= j < i ==> (#[trigger] self.available_families@[j])@ != family@,
            decreases n - i,
        {
            let e: &String = &self.available_families[i];
            if *e == *family {
                return true;
            }
            i += 1;
        }
        false
    }

    /// Add one face to the face table and make its family known.
    fn push_face(&mut self, id: fontdb::ID, family: String, weight: u16, ttc_index: u32, blob_index: usize)
        requires
            old(self).wf(),
            blob_index < old(self).blobs@.len(),
            db_face_record(old(self).available_fonts, id) == Some(
                (family@, weight, ttc_index),
            ),
        ensures
            final(self).wf(),
            final(self).loaded_fonts@ == old(self).loaded_fonts@,
            final(self).script_coverage@ == old(self).script_coverage@,
            final(self).char_coverage@ == old(self).char_coverage@,
            final(self).blobs@ == old(self).blobs@,
            final(self).available_fonts == old(self).available_fonts,
            final(self).fallback_families@ == old(self).fallback_families@,
            final(self).registered_sources@ == old(self).registered_sources@,
            final(self).cmap_probes@ == old(self).cmap_probes@,
            final(self).face_ids@.len() == old(self).face_ids@.len() + 1,
            forall|f: int|
                0 <= f < old(self).face_ids@.len() ==> (#[trigger] final(self).face_blobs@[f])
                    == old(self).face_blobs@[f],
            forall|f: int|
                0 <= f < old(self).face_ids@.len() ==> (#[trigger] final(self).face_row(f))
                    == old(self).face_row(f),
            final(self).face_row(old(self).face_ids@.len() as int) == (family@, weight, ttc_index),
            final(self).face_blobs@[old(self).face_ids@.len() as int] == blob_index,
            final(self).known_family(family@),
            forall|j: int|
                0 <= j < old(self).available_families@.len()
                    ==> final(self).available_families@[j] == old(self).available_families@[j],
            final(self).available_families@.len() >= old(self).available_families@.len(),
            forall|fam: Seq<char>| old(self).known_family(fam) ==> final(self).known_family(fam),
    {
        let known = self.is_known_family(&family);
        self.face_ids.push(id);
        self.face_families.push(family.clone());
        self.face_weights.push(weight);
        self.face_ttc_indices.push(ttc_index);
        self.face_blobs.push(blob_index);
        if !known {
            self.available_families.push(family);
        } else {
            proof {
                assert(old(self).known_family(family@));
            }
        }
        proof {
            assert(self.known_family(family@)) by {
                if !known {
                    assert((self.available_families@[self.available_families@.len() - 1])@
                        == family@);
                } else {
                    let j0 = choose|j0: int|
                        0 <= j0 < old(self).available_families@.len() && (old(
                            self,
                        ).available_families@[j0])@ == family@;
                    assert((self.available_families@[j0])@ == family@);
                }
            }
            assert forall|fam: Seq<char>|
                old(self).known_family(fam) implies self.known_family(fam) by {
                let j0 = choose|j0: int|
                    0 <= j0 < old(self).available_families@.len() && (old(
                        self,
                    ).available_families@[j0])@ == fam;
                assert((self.available_families@[j0])@ == fam);
            }
            assert forall|i: int|
                0 <= i < self.face_ids@.len() implies db_face_record(
                self.available_fonts,
                #[trigger] self.face_ids@[i],
            ) == Some(self.face_row(i)) by {
                if i < old(self).face_ids@.len() {
                    assert(self.face_ids@[i] == old(self).face_ids@[i]);
                    assert(self.face_row(i) == old(self).face_row(i));
                } else {
                    assert(self.face_ids@[i] == id);
                }
            }
        }
    }

    /// Register a font binary: every face the database parses out of it
    /// (a collection may hold several) is appended to the face table with
    /// the family, weight and collection index the database reports, the
    /// binary becomes the new faces' backing data, and their families
    /// become known.  Existing faces, cached fonts and coverage memos are
    /// untouched.  An invalid blob — one no face parses out of — fails.
    #[verifier::rlimit(100)]
    #[verifier::spinoff_prover]
    pub fn register_font_from_memory(&mut self, data: Vec<u8>) -> (r: Result<
        (),
        FontRegisterError,
    >)
        requires
            old(self).wf(),
        ensures
            final(self).wf(),
            final(self).cache_entries() == old(self).cache_entries(),
            final(self).script_memo() == old(self).script_memo(),
            final(self).char_memo() == old(self).char_memo(),
            final(self).fallback_names() == old(self).fallback_names(),
            final(self).source_keys() == old(self).source_keys(),
            final(self).probes() == old(self).probes(),
            final(self).face_count() == old(self).face_count() + db_faces_of(data@).len(),
            forall|fam: Seq<char>| old(self).known_family(fam) ==> final(self).known_family(fam),
            forall|f: int|
                0 <= f < old(self).face_count() ==> final(self).face_data(f) == old(
                    self,
                ).face_data(f) && final(self).face_row(f) == old(self).face_row(f),
            forall|k: int|
                0 <= k < db_faces_of(data@).len() ==> final(self).face_row(
                    old(self).face_count() + k,
                ) == db_faces_of(data@)[k] && final(self).face_data(old(self).face_count() + k)
                    == data@,
            forall|k: int|
                0 <= k < db_faces_of(data@).len() ==> final(self).known_family(
                    (#[trigger] db_faces_of(data@)[k]).0,
                ),
            r is Err <==> db_faces_of(data@).len() == 0,
    {
        let ghost gdata = data@;
        let ghost old_count = old(self).face_count();
        let blob_index = self.blobs.len();
        let ids = db_load_font_data(&mut self.available_fonts, data.clone());
        self.blobs.push(data);
        proof {
            assert(self.blobs@[blob_index as int]@ == gdata);
            assert forall|fam: Seq<char>|
                old(self).known_family(fam) implies self.known_family(fam) by {
                let j0 = choose|j0: int|
                    0 <= j0 < old(self).available_families@.len() && (old(
                        self,
                    ).available_families@[j0])@ == fam;
                assert((self.available_families@[j0])@ == fam);
            }
            // Records of the already-registered faces survive the load.
            assert forall|i: int|
                0 <= i < self.face_ids@.len() implies db_face_record(
                self.available_fonts,
                #[trigger] self.face_ids@[i],
            ) == Some(self.face_row(i)) by {
                assert(db_face_record(old(self).available_fonts, self.face_ids@[i]) == Some(
                    self.face_row(i),
                ));
            }
        }
        let mut k: usize = 0;
        while k < ids.len()
            invariant
                self.wf(),
                blob_index < self.blobs@.len(),
                blob_index == old(self).blobs@.len(),
                ids@.len() == db_faces_of(gdata).len(),
                0 <= k <= ids@.len(),
                forall|m: int|
                    0 <= m < ids@.len() ==> db_face_record(
                        self.available_fonts,
                        #[trigger] ids@[m],
                    ) == Some(db_faces_of(gdata)[m]),
                self.loaded_fonts@ == old(self).loaded_fonts@,
                self.script_coverage@ == old(self).script_coverage@,
                self.char_coverage@ == old(self).char_coverage@,
                self.fallback_families@ == old(self).fallback_families@,
                self.registered_sources@ == old(self).registered_sources@,
                self.blobs@.len() == old(self).blobs@.len() + 1,
                self.blobs@[blob_index as int]@ == gdata,
                forall|b: int| 0 <= b < old(self).blobs@.len() ==> self.blobs@[b] == old(
                    self,
                ).blobs@[b],
                self.cmap_probes@ == old(self).cmap_probes@,
                self.face_ids@.len() == old_count + k,
                forall|fam: Seq<char>| old(self).known_family(fam) ==> self.known_family(fam),
                forall|f: int|
                    0 <= f < old_count ==> (#[trigger] self.face_blobs@[f]) == old(
                        self,
                    ).face_blobs@[f],
                forall|f: int|
                    0 <= f < old_count ==> (#[trigger] self.face_row(f)) == old(self).face_row(f),
                forall|m: int|
                    0 <= m < k ==> (#[trigger] self.face_row(old_count + m)) == db_faces_of(
                        gdata,
                    )[m] && self.face_blobs@[old_count + m] == blob_index,
                forall|m: int|
                    0 <= m < k ==> self.known_family((#[trigger] db_faces_of(gdata)[m]).0),
            decreases ids@.len() - k,
        {
            let id = ids[k];
            let ghost pre = *self;
            match db_face_info(&self.available_fonts, &id) {
                Some((family, face_weight, ttc_index)) => {
                    proof {
                        assert(db_face_record(self.available_fonts, id) == Some(
                            db_faces_of(gdata)[k as int],
                        ));
                    }
                    self.push_face(id, family, face_weight, ttc_index, blob_index);
                    proof {
                        assert(self.face_row(old_count + k as int) == db_faces_of(
                            gdata,
                        )[k as int]);
                        assert(self.face_blobs@[old_count + k as int] == blob_index);
                        assert forall|m: int|
                            0 <= m < k + 1 implies (#[trigger] self.face_row(old_count + m))
                            == db_faces_of(gdata)[m] && self.face_blobs@[old_count + m]
                            == blob_index by {
                            if m < k {
                                assert(self.face_row(old_count + m) == pre.face_row(
                                    old_count + m,
                                ));
                                assert(self.face_blobs@[old_count + m] == pre.face_blobs@[old_count
                                    + m]);
                            }
                        }
                        assert forall|m: int|
                            0 <= m < k + 1 implies self.known_family(
                            (#[trigger] db_faces_of(gdata)[m]).0,
                        ) by {
                            if m < k {
                                assert(pre.known_family(db_faces_of(gdata)[m].0));
                                let j0 = choose|j0: int|
                                    0 <= j0 < pre.available_families@.len() && (
                                    pre.available_families@[j0])@ == db_faces_of(gdata)[m].0;
                                assert((self.available_families@[j0])@ == db_faces_of(
                                    gdata,
                                )[m].0);
                            }
                        }
                    }
                },
                None => {
                    // The database just reported this id: its record is
                    // present, so this arm cannot be taken.
                    proof {
                        assert(db_face_record(self.available_fonts, id) == Some(
                            db_faces_of(gdata)[k as int],
                        ));
                    }
                },
            }
            k += 1;
        }
        if ids.len() == 0 {
            Err(FontRegisterError::InvalidFontData)
        } else {
            Ok(())
        }
    }

}

/// The scripts still uncovered after consulting one face: the entries
/// whose sample the memo or a fresh cmap probe does not cover.
pub open spec fn uncovered_scripts_after(
    m: Seq<((usize, u8), bool)>,
    data: Seq<u8>,
    ttc: u32,
    face: int,
    sw: Seq<(u8, char)>,
) -> Seq<(u8, char)>
    decreases sw.len(),
{
    if sw.len() == 0 {
        Seq::empty()
    } else {
        let pre = uncovered_scripts_after(m, data, ttc, face, sw.drop_last());
        if !covered_script(m, data, ttc, face, sw.last()) {
            pre.push(sw.last())
        } else {
            pre
        }
    }
}

/// The characters still uncovered after consulting one face.
pub open spec fn uncovered_chars_after(
    m: Seq<((usize, char), bool)>,
    data: Seq<u8>,
    ttc: u32,
    face: int,
    cw: Seq<char>,
) -> Seq<char>
    decreases cw.len(),
{
    if cw.len() == 0 {
        Seq::empty()
    } else {
        let pre = uncovered_chars_after(m, data, ttc, face, cw.drop_last());
        if !covered_char(m, data, ttc, face, cw.last()) {
            pre.push(cw.last())
        } else {
            pre
        }
    }
}

/// The memo entries one check appends for the required scripts: one per
/// script key the memo did not know, in order, holding the cmap probe's
/// answer for the sample character.
pub open spec fn script_probe_results(
    m0: Seq<((usize, u8), bool)>,
    data: Seq<u8>,
    ttc: u32,
    face: int,
    sw: Seq<(u8, char)>,
) -> Seq<((usize, u8), bool)>
    decreases sw.len(),
{
    if sw.len() == 0 {
        Seq::empty()
    } else {
        let pre = script_probe_results(m0, data, ttc, face, sw.drop_last());
        if script_memo_get(m0, face, sw.last().0) is None {
            pre.push(
                (
                    ((face as usize), sw.last().0),
                    face_glyph_coverage(data, ttc, sw.last().1) == Some(true),
                ),
            )
        } else {
            pre
        }
    }
}

/// The memo entries one check appends for the required characters.
pub open spec fn char_probe_results(
    m0: Seq<((usize, char), bool)>,
    data: Seq<u8>,
    ttc: u32,
    face: int,
    cw: Seq<char>,
) -> Seq<((usize, char), bool)>
    decreases cw.len(),
{
    if cw.len() == 0 {
        Seq::empty()
    } else {
        let pre = char_probe_results(m0, data, ttc, face, cw.drop_last());
        if char_memo_get(m0, face, cw.last()) is None {
            pre.push(
                (
                    ((face as usize), cw.last()),
                    face_glyph_coverage(data, ttc, cw.last()) == Some(true),
                ),
            )
        } else {
            pre
        }
    }
}

/// The script memo after one check: the old memo plus the fresh probes —
/// nothing else changes, unprobed keys included.
pub open spec fn memo_after_scripts(
    m0: Seq<((usize, u8), bool)>,
    data: Seq<u8>,
    ttc: u32,
    face: int,
    sw: Seq<(u8, char)>,
) -> Seq<((usize, u8), bool)> {
    m0 + script_probe_results(m0, data, ttc, face, sw)
}

/// The character memo after one check.
pub open spec fn memo_after_chars(
    m0: Seq<((usize, char), bool)>,
    data: Seq<u8>,
    ttc: u32,
    face: int,
    cw: Seq<char>,
) -> Seq<((usize, char), bool)> {
    m0 + char_probe_results(m0, data, ttc, face, cw)
}

/// How consulting one face classifies: Complete when nothing is left,
/// Improved when a residual set shrank, Incomplete otherwise.
pub open spec fn spec_classify(os: int, oc: int, ns: int, nc: int) -> GlyphCoverageCheckResult {
    if ns == 0 && nc == 0 {
        GlyphCoverageCheckResult::Complete
    } else if ns < os || nc < oc {
        GlyphCoverageCheckResult::Improved
    } else {
        GlyphCoverageCheckResult::Incomplete
    }
}

/// How one memo push changes lookups: the pushed key reads back its
/// value, every other key is untouched.
proof fn lemma_script_memo_push(
    m: Seq<((usize, u8), bool)>,
    face2: usize,
    k2: u8,
    v: bool,
    f: int,
    k: u8,
)
    ensures
        script_memo_get(m.push(((face2, k2), v)), f, k) == if face2 as int == f && k2 == k {
            Some(v)
        } else {
            script_memo_get(m, f, k)
        },
{
    let m2 = m.push(((face2, k2), v));
    assert(m2.drop_last() =~= m);
    assert(m2.last() == ((face2, k2), v));
}

/// The same for the character memo.
proof fn lemma_char_memo_push(
    m: Seq<((usize, char), bool)>,
    face2: usize,
    c2: char,
    v: bool,
    f: int,
    c: char,
)
    ensures
        char_memo_get(m.push(((face2, c2), v)), f, c) == if face2 as int == f && c2 == c {
            Some(v)
        } else {
            char_memo_get(m, f, c)
        },
{
    let m2 = m.push(((face2, c2), v));
    assert(m2.drop_last() =~= m);
    assert(m2.last() == ((face2, c2), v));
}

impl FontCache {
    /// From the sets of scripts and characters without coverage, remove
    /// all that the given face is known or found to cover.  Newly probed
    /// coverage is memoized on the face; the memo is additive and never
    /// invalidated, and each (face, script) or (face, character) key is
    /// probed at most once in the cache's lifetime.
    #[verifier::loop_isolation(false)]
    #[verifier::rlimit(60)]
    pub fn check_and_update_script_coverage(
        &mut self,
        scripts_without_coverage: &mut Vec<(u8, char)>,
        chars_without_coverage: &mut Vec<char>,
        face_index: usize,
    ) -> (r: GlyphCoverageCheckResult)
        requires
            old(self).wf(),
            face_index < old(self).face_count(),
            unique_script_keys(old(scripts_without_coverage)@),
            unique_chars(old(chars_without_coverage)@),
        ensures
            final(self).wf(),
            final(self).cache_entries() == old(self).cache_entries(),
            final(self).face_count() == old(self).face_count(),
            final(self).family_names() == old(self).family_names(),
            final(self).fallback_names() == old(self).fallback_names(),
            final(self).db() == old(self).db(),
            final(self).face_ids_view() == old(self).face_ids_view(),
            forall|f: int|
                0 <= f < old(self).face_count() ==> final(self).face_data(f) == old(
                    self,
                ).face_data(f) && final(self).face_ttc_index(f) == old(self).face_ttc_index(f),
            final(self).script_memo() == memo_after_scripts(
                old(self).script_memo(),
                old(self).face_data(face_index as int),
                old(self).face_ttc_index(face_index as int),
                face_index as int,
                old(scripts_without_coverage)@,
            ),
            final(self).char_memo() == memo_after_chars(
                old(self).char_memo(),
                old(self).face_data(face_index as int),
                old(self).face_ttc_index(face_index as int),
                face_index as int,
                old(chars_without_coverage)@,
            ),
            final(scripts_without_coverage)@ == uncovered_scripts_after(
                old(self).script_memo(),
                old(self).face_data(face_index as int),
                old(self).face_ttc_index(face_index as int),
                face_index as int,
                old(scripts_without_coverage)@,
            ),
            final(chars_without_coverage)@ == uncovered_chars_after(
                old(self).char_memo(),
                old(self).face_data(face_index as int),
                old(self).face_ttc_index(face_index as int),
                face_index as int,
                old(chars_without_coverage)@,
            ),
            unique_script_keys(final(scripts_without_coverage)@),
            unique_chars(final(chars_without_coverage)@),
            forall|f: int, k: u8|
                script_memo_get(old(self).script_memo(), f, k) is Some ==> script_memo_get(
                    final(self).script_memo(),
                    f,
                    k,
                ) == script_memo_get(old(self).script_memo(), f, k),
            forall|f: int, c: char|
                char_memo_get(old(self).char_memo(), f, c) is Some ==> char_memo_get(
                    final(self).char_memo(),
                    f,
                    c,
                ) == char_memo_get(old(self).char_memo(), f, c),
            forall|i: int|
                0 <= i < old(scripts_without_coverage)@.len() ==> script_memo_get(
                    final(self).script_memo(),
                    face_index as int,
                    (#[trigger] old(scripts_without_coverage)@[i]).0,
                ) is Some,
            forall|i: int|
                0 <= i < old(chars_without_coverage)@.len() ==> char_memo_get(
                    final(self).char_memo(),
                    face_index as int,
                    #[trigger] old(chars_without_coverage)@[i],
                ) is Some,
            final(self).probes() == old(self).probes() + pending_scripts(
                old(self).script_memo(),
                face_index as int,
                old(scripts_without_coverage)@,
            ).len() + pending_chars(
                old(self).char_memo(),
                face_index as int,
                old(chars_without_coverage)@,
            ).len(),
            r == spec_classify(
                old(scripts_without_coverage)@.len() as int,
                old(chars_without_coverage)@.len() as int,
                final(scripts_without_coverage)@.len() as int,
                final(chars_without_coverage)@.len() as int,
            ),
    {
        let ghost m0 = self.script_coverage@;
        let ghost cm0 = self.char_coverage@;
        let ghost gface = face_index as int;
        let ghost data0 = self.face_data(gface);
        let ghost ttc0 = self.face_ttc_index(gface);
        let ghost sw0 = scripts_without_coverage@;
        let ghost cw0 = chars_without_coverage@;
        let old_slen = scripts_without_coverage.len();
        let old_clen = chars_without_coverage.len();

        let mut new_scripts: Vec<(u8, char)> = Vec::new();
        let mut i: usize = 0;
        proof {
            assert(sw0.take(0) =~= Seq::<(u8, char)>::empty());
        }
        while i < scripts_without_coverage.len()
            invariant
                self.wf(),
                face_index < self.face_count(),
                0 <= i <= sw0.len(),
                scripts_without_coverage@ == sw0,
                chars_without_coverage@ == cw0,
                unique_script_keys(sw0),
                self.loaded_fonts@ == old(self).loaded_fonts@,
                self.char_coverage@ == cm0,
                self.available_fonts == old(self).available_fonts,
                self.available_families@ == old(self).available_families@,
                self.fallback_families@ == old(self).fallback_families@,
                self.blobs@ == old(self).blobs@,
                self.face_ids@ == old(self).face_ids@,
                self.face_families@ == old(self).face_families@,
                self.face_ttc_indices@ == old(self).face_ttc_indices@,
                self.face_blobs@ == old(self).face_blobs@,
                new_scripts@ == uncovered_scripts_after(m0, data0, ttc0, gface, sw0.take(i as int)),
                self.script_coverage@ == memo_after_scripts(
                    m0,
                    data0,
                    ttc0,
                    gface,
                    sw0.take(i as int),
                ),
                forall|j: int|
                    i <= j < sw0.len() ==> script_memo_get(
                        self.script_coverage@,
                        gface,
                        (#[trigger] sw0[j]).0,
                    ) == script_memo_get(m0, gface, sw0[j].0),
                forall|f: int, k: u8|
                    script_memo_get(m0, f, k) is Some ==> script_memo_get(
                        self.script_coverage@,
                        f,
                        k,
                    ) == script_memo_get(m0, f, k),
                forall|j: int|
                    0 <= j < i ==> script_memo_get(
                        self.script_coverage@,
                        gface,
                        (#[trigger] sw0[j]).0,
                    ) is Some,
                self.cmap_probes@ == old(self).cmap_probes@ + pending_scripts(
                    m0,
                    gface,
                    sw0.take(i as int),
                ).len(),
                unique_script_keys(new_scripts@),
                forall|p: int|
                    0 <= p < new_scripts@.len() ==> exists|q: int|
                        0 <= q < i && #[trigger] new_scripts@[p] == sw0[q],
            decreases sw0.len() - i,
        {
            let e = scripts_without_coverage[i];
            let ghost mprev = self.script_coverage@;
            let memo = script_memo_lookup(&self.script_coverage, face_index, e.0);
            let covered: bool;
            match memo {
                Some(b) => {
                    covered = b;
                },
                None => {
                    let blob_idx = self.face_blobs[face_index];
                    let ttc = self.face_ttc_indices[face_index];
                    let probe = face_covers_char(&self.blobs[blob_idx], ttc, e.1);
                    covered = matches!(probe, Some(true));
                    self.script_coverage.push(((face_index, e.0), covered));
                    self.cmap_probes = Ghost(self.cmap_probes@ + 1);
                    proof {
                        assert(self.script_coverage@ =~= m0 + script_probe_results(
                            m0,
                            data0,
                            ttc0,
                            gface,
                            sw0.take(i as int),
                        ).push(((face_index, e.0), covered)));
                        lemma_script_memo_push(mprev, face_index, e.0, covered, gface, e.0);
                        assert forall|f: int, k: u8|
                            script_memo_get(mprev, f, k) is Some implies script_memo_get(
                            self.script_coverage@,
                            f,
                            k,
                        ) == script_memo_get(mprev, f, k) by {
                            lemma_script_memo_push(mprev, face_index, e.0, covered, f, k);
                        }
                        assert forall|j: int|
                            i as int + 1 <= j < sw0.len() implies script_memo_get(
                            self.script_coverage@,
                            gface,
                            (#[trigger] sw0[j]).0,
                        ) == script_memo_get(m0, gface, sw0[j].0) by {
                            lemma_script_memo_push(mprev, face_index, e.0, covered, gface, sw0[j].0);
                            assert(sw0[i as int].0 != sw0[j].0);
                        }
                    }
                },
            }
            if !covered {
                new_scripts.push(e);
                proof {
                    assert forall|p: int|
                        0 <= p < new_scripts@.len() implies exists|q: int|
                        0 <= q < i + 1 && #[trigger] new_scripts@[p] == sw0[q] by {
                        if p < new_scripts@.len() - 1 {
                            let q0 = choose|q0: int|
                                0 <= q0 < i && new_scripts@.drop_last()[p] == sw0[q0];
                            assert(new_scripts@[p] == sw0[q0]);
                        } else {
                            assert(new_scripts@[p] == sw0[i as int]);
                        }
                    }
                }
            }
            i += 1;
            proof {
                assert(sw0.take(i as int).drop_last() =~= sw0.take(i as int - 1));
                assert(sw0.take(i as int).last() == sw0[i as int - 1]);
            }
        }
        proof {
            assert(sw0.take(sw0.len() as int) =~= sw0);
        }
        *scripts_without_coverage = new_scripts;

        let mut new_chars: Vec<char> = Vec::new();
        let mut h: usize = 0;
        let ghost mid_probes = self.cmap_probes@;
        let ghost sm_mid = self.script_coverage@;
        proof {
            assert(cw0.take(0) =~= Seq::<char>::empty());
        }
        while h < chars_without_coverage.len()
            invariant
                self.wf(),
                face_index < self.face_count(),
                0 <= h <= cw0.len(),
                chars_without_coverage@ == cw0,
                unique_chars(cw0),
                self.loaded_fonts@ == old(self).loaded_fonts@,
                self.script_coverage@ == sm_mid,
                self.available_fonts == old(self).available_fonts,
                self.available_families@ == old(self).available_families@,
                self.fallback_families@ == old(self).fallback_families@,
                self.blobs@ == old(self).blobs@,
                self.face_ids@ == old(self).face_ids@,
                self.face_families@ == old(self).face_families@,
                self.face_ttc_indices@ == old(self).face_ttc_indices@,
                self.face_blobs@ == old(self).face_blobs@,
                new_chars@ == uncovered_chars_after(cm0, data0, ttc0, gface, cw0.take(h as int)),
                self.char_coverage@ == memo_after_chars(
                    cm0,
                    data0,
                    ttc0,
                    gface,
                    cw0.take(h as int),
                ),
                forall|j: int|
                    h <= j < cw0.len() ==> char_memo_get(
                        self.char_coverage@,
                        gface,
                        #[trigger] cw0[j],
                    ) == char_memo_get(cm0, gface, cw0[j]),
                forall|f: int, c: char|
                    char_memo_get(cm0, f, c) is Some ==> char_memo_get(self.char_coverage@, f, c)
                        == char_memo_get(cm0, f, c),
                forall|j: int|
                    0 <= j < h ==> char_memo_get(
                        self.char_coverage@,
                        gface,
                        #[trigger] cw0[j],
                    ) is Some,
                self.cmap_probes@ == mid_probes + pending_chars(
                    cm0,
                    gface,
                    cw0.take(h as int),
                ).len(),
                unique_chars(new_chars@),
                forall|p: int|
                    0 <= p < new_chars@.len() ==> exists|q: int|
                        0 <= q < h && #[trigger] new_chars@[p] == cw0[q],
            decreases cw0.len() - h,
        {
            let c = chars_without_coverage[h];
            let ghost mprev = self.char_coverage@;
            let memo = char_memo_lookup(&self.char_coverage, face_index, c);
            let covered: bool;
            match memo {
                Some(b) => {
                    covered = b;
                },
                None => {
                    let blob_idx = self.face_blobs[face_index];
                    let ttc = self.face_ttc_indices[face_index];
                    let probe = face_covers_char(&self.blobs[blob_idx], ttc, c);
                    covered = matches!(probe, Some(true));
                    self.char_coverage.push(((face_index, c), covered));
                    self.cmap_probes = Ghost(self.cmap_probes@ + 1);
                    proof {
                        assert(self.char_coverage@ =~= cm0 + char_probe_results(
                            cm0,
                            data0,
                            ttc0,
                            gface,
                            cw0.take(h as int),
                        ).push(((face_index, c), covered)));
                        lemma_char_memo_push(mprev, face_index, c, covered, gface, c);
                        assert forall|f: int, c2: char|
                            char_memo_get(mprev, f, c2) is Some implies char_memo_get(
                            self.char_coverage@,
                            f,
                            c2,
                        ) == char_memo_get(mprev, f, c2) by {
                            lemma_char_memo_push(mprev, face_index, c, covered, f, c2);
                        }
                        assert forall|j: int|
                            h as int + 1 <= j < cw0.len() implies char_memo_get(
                            self.char_coverage@,
                            gface,
                            #[trigger] cw0[j],
                        ) == char_memo_get(cm0, gface, cw0[j]) by {
                            lemma_char_memo_push(mprev, face_index, c, covered, gface, cw0[j]);
                            assert(cw0[h as int] != cw0[j]);
                        }
                    }
                },
            }
            if !covered {
                new_chars.push(c);
                proof {
                    assert forall|p: int|
                        0 <= p < new_chars@.len() implies exists|q: int|
                        0 <= q < h + 1 && #[trigger] new_chars@[p] == cw0[q] by {
                        if p < new_chars@.len() - 1 {
                            let q0 = choose|q0: int| 0 <= q0 < h && new_chars@.drop_last()[p]
                                == cw0[q0];
                            assert(new_chars@[p] == cw0[q0]);
                        } else {
                            assert(new_chars@[p] == cw0[h as int]);
                        }
                    }
                }
            }
            h += 1;
            proof {
                assert(cw0.take(h as int).drop_last() =~= cw0.take(h as int - 1));
                assert(cw0.take(h as int).last() == cw0[h as int - 1]);
            }
        }
        proof {
            assert(cw0.take(cw0.len() as int) =~= cw0);
        }
        *chars_without_coverage = new_chars;

        let new_slen = scripts_without_coverage.len();
        let new_clen = chars_without_coverage.len();
        if new_slen == 0 && new_clen == 0 {
            GlyphCoverageCheckResult::Complete
        } else if new_slen < old_slen || new_clen < old_clen {
            GlyphCoverageCheckResult::Improved
        } else {
            GlyphCoverageCheckResult::Incomplete
        }
    }

    /// The first position of an id in the face table, scanning forward.
    pub open spec fn first_id_index(ids: Seq<fontdb::ID>, id: fontdb::ID, i: int) -> Option<int>
        decreases ids.len() - i,
    {
        if i < 0 || i >= ids.len() {
            None
        } else if ids[i] == id {
            Some(i)
        } else {
            Self::first_id_index(ids, id, i + 1)
        }
    }

    /// The record the two-step query selects for a request: the family's
    /// own match, or the sans-serif match when the family yields nothing.
    pub closed spec fn query_chain(&self, family: Option<Seq<char>>, weight: u16) -> Option<
        (Seq<char>, u16, u32),
    > {
        if db_query_record(self.available_fonts, family, weight) is Some {
            db_query_record(self.available_fonts, family, weight)
        } else {
            db_query_record(self.available_fonts, None, weight)
        }
    }

    /// How one face load relates a request to its result, on this cache
    /// state.  A cached (family, weight) key yields the cached face.
    /// Otherwise the two-step database query decides: its face — located
    /// in the face table at the first position carrying the queried id —
    /// is the result, and the load fails exactly when the query matches
    /// nothing or the queried face was never registered here.
    #[verifier::opaque]
    pub closed spec fn loads_to(
        &self,
        family: Option<Seq<char>>,
        key: Seq<char>,
        weight: u16,
        result: Option<LoadedFont>,
    ) -> bool {
        match font_cache_get(self.loaded_fonts@, key, weight) {
            Some(cached) => result == Some(cached),
            None => {
                let chosen = self.query_chain(family, weight);
                match result {
                    Some(lf) => chosen is Some && lf.face_index < self.face_ids@.len()
                        && exists|id: fontdb::ID|
                        #[trigger] db_face_record(self.available_fonts, id) == chosen
                            && Self::first_id_index(self.face_ids@, id, 0) == Some(
                            lf.face_index as int,
                        ),
                    None => chosen is None || (exists|id: fontdb::ID|
                        #[trigger] db_face_record(self.available_fonts, id) == chosen
                            && Self::first_id_index(self.face_ids@, id, 0) is None),
                }
            },
        }
    }

    /// The cache key under which a request's family is stored: the name
    /// itself, or the empty name when the request has none.
    pub open spec fn spec_family_key(family: Option<&String>) -> Seq<char> {
        match family {
            Some(f) => f@,
            None => Seq::empty(),
        }
    }

    /// Return the cached face for (family, weight).  On a miss, query the
    /// face database for the family (the sans-serif family when none is
    /// given), querying once more for sans-serif alone when the family
    /// matched nothing, and cache the answer.  `None` when even the
    /// sans-serif query fails or names an unregistered face: the
    /// configuration the host promised (a registered sans-serif face) is
    /// absent.
    #[verifier::loop_isolation(false)]
    pub fn load_single_font(&mut self, family: Option<&String>, weight: u16) -> (r: Option<
        LoadedFont,
    >)
        requires
            old(self).wf(),
        ensures
            final(self).wf(),
            final(self).script_memo() == old(self).script_memo(),
            final(self).char_memo() == old(self).char_memo(),
            final(self).face_count() == old(self).face_count(),
            final(self).family_names() == old(self).family_names(),
            final(self).fallback_names() == old(self).fallback_names(),
            final(self).probes() == old(self).probes(),
            final(self).db() == old(self).db(),
            final(self).face_ids_view() == old(self).face_ids_view(),
            forall|f: int|
                0 <= f < old(self).face_count() ==> final(self).face_data(f) == old(
                    self,
                ).face_data(f) && final(self).face_ttc_index(f) == old(self).face_ttc_index(f),
            old(self).loads_to(
                spec_opt_family(family),
                Self::spec_family_key(family),
                weight,
                r,
            ),
            match r {
                Some(lf) => {
                    &&& lf.face_index < old(self).face_count()
                    &&& match font_cache_get(
                        old(self).cache_entries(),
                        Self::spec_family_key(family),
                        weight,
                    ) {
                        Some(cached) => lf == cached && final(self).cache_entries() == old(
                            self,
                        ).cache_entries(),
                        None => {
                            &&& final(self).cache_entries().len() == old(
                                self,
                            ).cache_entries().len() + 1
                            &&& final(self).cache_entries().last().0@ == Self::spec_family_key(
                                family,
                            )
                            &&& final(self).cache_entries().last().1 == weight
                            &&& final(self).cache_entries().last().2 == lf
                            &&& forall|i: int|
                                0 <= i < old(self).cache_entries().len()
                                    ==> #[trigger] final(self).cache_entries()[i] == old(
                                    self,
                                ).cache_entries()[i]
                        },
                    }
                },
                None => final(self).cache_entries() == old(self).cache_entries(),
            },
    {
        let key_string: String = match family {
            Some(f) => (*f).clone(),
            None => String::new(),
        };
        proof {
            reveal(FontCache::loads_to);
            assert(key_string@ == Self::spec_family_key(family));
        }
        // Cache lookup, scanning from the end as the spec does.
        let mut i = self.loaded_fonts.len();
        proof {
            assert(self.loaded_fonts@.take(self.loaded_fonts@.len() as int) =~= self.loaded_fonts@);
        }
        while i > 0
            invariant
                i <= self.loaded_fonts@.len(),
                font_cache_get(self.loaded_fonts@, key_string@, weight) == font_cache_get(
                    self.loaded_fonts@.take(i as int),
                    key_string@,
                    weight,
                ),
            decreases i,
        {
            i -= 1;
            proof {
                assert(self.loaded_fonts@.take(i as int + 1).drop_last() =~= self.loaded_fonts@.take(
                    i as int,
                ));
                assert(self.loaded_fonts@.take(i as int + 1).last() == self.loaded_fonts@[i as int]);
            }
            let entry = &self.loaded_fonts[i];
            if entry.0 == key_string && entry.1 == weight {
                return Some(entry.2);
            }
        }
        proof {
            assert(self.loaded_fonts@.take(0) =~= Seq::<(String, u16, LoadedFont)>::empty());
        }
        // Miss: ask the database, falling back to sans-serif.
        let id_opt = match db_query(&self.available_fonts, family, weight) {
            Some(id) => Some(id),
            None => db_query(&self.available_fonts, None, weight),
        };
        let id = match id_opt {
            Some(id) => id,
            None => {
                return None;
            },
        };
        // Resolve the database id to our face index.
        let n = self.face_ids.len();
        let mut k: usize = 0;
        let mut found: Option<usize> = None;
        while k < n && found.is_none()
            invariant
                0 <= k <= n,
                n == self.face_ids@.len(),
                match found {
                    Some(fi) => fi < n && Self::first_id_index(self.face_ids@, id, 0) == Some(
                        fi as int,
                    ),
                    None => Self::first_id_index(self.face_ids@, id, 0) == Self::first_id_index(
                        self.face_ids@,
                        id,
                        k as int,
                    ),
                },
            decreases n - k + (if found is Some {
                0int
            } else {
                1int
            }),
        {
            if id_eq(&self.face_ids[k], &id) {
                found = Some(k);
                continue;
            }
            k += 1;
        }
        match found {
            Some(fi) => {
                let lf = LoadedFont { face_index: fi };
                self.loaded_fonts.push((key_string, weight, lf));
                Some(lf)
            },
            None => None,
        }
    }
}

/// The tail of a fallback-family list from position `i` on, narrowed to
/// the names in `available`, order kept.
pub open spec fn known_names_from(
    fallbacks: Seq<Seq<char>>,
    available: Seq<Seq<char>>,
    i: int,
) -> Seq<Seq<char>>
    decreases fallbacks.len() - i,
{
    if i < 0 || i >= fallbacks.len() {
        Seq::empty()
    } else {
        let rest = known_names_from(fallbacks, available, i + 1);
        if available.contains(fallbacks[i]) {
            seq![fallbacks[i]] + rest
        } else {
            rest
        }
    }
}

/// The faces among the evaluated fallbacks that strictly shrank the
/// uncovered sets at their turn — those whose check improved or
/// completed coverage — in evaluation order.
pub open spec fn improved_faces(t: Seq<(usize, GlyphCoverageCheckResult)>) -> Seq<usize>
    decreases t.len(),
{
    if t.len() == 0 {
        Seq::empty()
    } else {
        let pre = improved_faces(t.drop_last());
        if t.last().1 != GlyphCoverageCheckResult::Incomplete {
            pre.push(t.last().0)
        } else {
            pre
        }
    }
}

/// A selected font: the ordered engine face ids (the primary face first,
/// then each fallback that improved coverage) and the resolved physical
/// pixel size.
pub struct Font {
    /// Face indices into the cache's face table: the primary face, then
    /// the kept fallbacks in the order they were tried.
    pub fonts: Vec<usize>,
    /// The pixel size in whole physical pixels.
    pub pixel_size: u32,
    /// The primary face index.
    pub primary: Ghost<usize>,
    /// Every fallback face evaluated, with its coverage-check outcome.
    pub trace: Ghost<Seq<(usize, GlyphCoverageCheckResult)>>,
    /// For each trace entry, the position of its family in the known
    /// fallback list; strictly increasing.
    pub tried: Ghost<Seq<int>>,
    /// How many known fallback families the walk considered before it
    /// stopped.
    pub considered: Ghost<int>,
    /// The outcome of the primary face's coverage check.
    pub primary_check: Ghost<GlyphCoverageCheckResult>,
}

/// The faces the walk consulted, in order: the primary first, then every
/// evaluated fallback face.
#[verifier::opaque]
pub open spec fn walk_faces(primary: usize, trace: Seq<(usize, GlyphCoverageCheckResult)>) -> Seq<
    usize,
> {
    seq![primary] + trace.map_values(|e: (usize, GlyphCoverageCheckResult)| e.0)
}

/// The required sets and coverage memos after replaying the walk's
/// coverage checks over the given faces, starting from the initial sets
/// and memos: each step removes what its face covers and appends that
/// face's fresh probes to the memos.  Face data is read off `st0`, whose
/// face table the walk never changes.
#[verifier::opaque]
pub open spec fn replay_state(
    st0: FontCache,
    sw0: Seq<(u8, char)>,
    cw0: Seq<char>,
    sm0: Seq<((usize, u8), bool)>,
    cm0: Seq<((usize, char), bool)>,
    faces: Seq<usize>,
) -> (Seq<(u8, char)>, Seq<char>, Seq<((usize, u8), bool)>, Seq<((usize, char), bool)>)
    decreases faces.len(),
{
    if faces.len() == 0 {
        (sw0, cw0, sm0, cm0)
    } else {
        let prev = replay_state(st0, sw0, cw0, sm0, cm0, faces.drop_last());
        let f = faces.last();
        let data = st0.face_data(f as int);
        let ttc = st0.face_ttc_index(f as int);
        (
            uncovered_scripts_after(prev.2, data, ttc, f as int, prev.0),
            uncovered_chars_after(prev.3, data, ttc, f as int, prev.1),
            memo_after_scripts(prev.2, data, ttc, f as int, prev.0),
            memo_after_chars(prev.3, data, ttc, f as int, prev.1),
        )
    }
}

/// What one more coverage check classifies after replaying a prefix of
/// the walk: Complete, Improved or Incomplete by how the residual sets
/// shrink when face `f` is consulted next.
#[verifier::opaque]
pub open spec fn replay_outcome(
    st0: FontCache,
    sw0: Seq<(u8, char)>,
    cw0: Seq<char>,
    sm0: Seq<((usize, u8), bool)>,
    cm0: Seq<((usize, char), bool)>,
    prefix: Seq<usize>,
    f: usize,
) -> GlyphCoverageCheckResult {
    let prev = replay_state(st0, sw0, cw0, sm0, cm0, prefix);
    let data = st0.face_data(f as int);
    let ttc = st0.face_ttc_index(f as int);
    spec_classify(
        prev.0.len() as int,
        prev.1.len() as int,
        uncovered_scripts_after(prev.2, data, ttc, f as int, prev.0).len() as int,
        uncovered_chars_after(prev.3, data, ttc, f as int, prev.1).len() as int,
    )
}

/// The walk's recorded outcomes are the replay of its coverage checks
/// over the reference text: the primary check classifies the partition of
/// the text against the pre-walk memos, and each trace entry classifies
/// its face against the state the earlier steps left.
pub open spec fn walk_outcome_ok(
    st0: FontCache,
    text: Seq<char>,
    primary: usize,
    trace: Seq<(usize, GlyphCoverageCheckResult)>,
    primary_check: GlyphCoverageCheckResult,
) -> bool {
    let sw0 = spec_required_scripts(text, text.len() as int);
    let cw0 = spec_required_chars(text, text.len() as int);
    let sm0 = st0.script_memo();
    let cm0 = st0.char_memo();
    &&& primary_check == replay_outcome(st0, sw0, cw0, sm0, cm0, Seq::empty(), primary)
    &&& forall|k: int|
        0 <= k < trace.len() ==> (#[trigger] trace[k]).1 == replay_outcome(
            st0,
            sw0,
            cw0,
            sm0,
            cm0,
            walk_faces(primary, trace).take(k + 1),
            trace[k].0,
        )
}

/// Unfolding one replay step: appending a face to the walk applies that
/// face's coverage check to the state the prefix left.
proof fn lemma_replay_step(
    st0: FontCache,
    sw0: Seq<(u8, char)>,
    cw0: Seq<char>,
    sm0: Seq<((usize, u8), bool)>,
    cm0: Seq<((usize, char), bool)>,
    walked_prev: Seq<usize>,
    walked: Seq<usize>,
    f: usize,
)
    requires
        walked == walked_prev.push(f),
    ensures
        ({
            let prev = replay_state(st0, sw0, cw0, sm0, cm0, walked_prev);
            let data = st0.face_data(f as int);
            let ttc = st0.face_ttc_index(f as int);
            &&& replay_state(st0, sw0, cw0, sm0, cm0, walked) == (
                uncovered_scripts_after(prev.2, data, ttc, f as int, prev.0),
                uncovered_chars_after(prev.3, data, ttc, f as int, prev.1),
                memo_after_scripts(prev.2, data, ttc, f as int, prev.0),
                memo_after_chars(prev.3, data, ttc, f as int, prev.1),
            )
            &&& replay_outcome(st0, sw0, cw0, sm0, cm0, walked_prev, f) == spec_classify(
                prev.0.len() as int,
                prev.1.len() as int,
                uncovered_scripts_after(prev.2, data, ttc, f as int, prev.0).len() as int,
                uncovered_chars_after(prev.3, data, ttc, f as int, prev.1).len() as int,
            )
        }),
{
    reveal(replay_state);
    reveal(replay_outcome);
    assert(walked.drop_last() =~= walked_prev);
    assert(walked.last() == f);
}

/// Extending the walk's ghost record by one evaluated family keeps all
/// its invariants: ordering, bounds, per-face resolution, the skipped
/// families' failed loads and the replayed outcomes.
#[verifier::spinoff_prover]
proof fn lemma_walk_ghost_step(
    st0: FontCache,
    req_view: Option<Seq<char>>,
    req_key: Seq<char>,
    weight: u16,
    kf: Seq<Seq<char>>,
    sw0: Seq<(u8, char)>,
    cw0: Seq<char>,
    sm0: Seq<((usize, u8), bool)>,
    cm0: Seq<((usize, char), bool)>,
    primary_face: usize,
    trace_prev: Seq<(usize, GlyphCoverageCheckResult)>,
    tried_prev: Seq<int>,
    walked_prev: Seq<usize>,
    face: usize,
    outcome: GlyphCoverageCheckResult,
    i: int,
)
    requires
        tried_prev.len() == trace_prev.len(),
        forall|k: int|
            0 <= k < tried_prev.len() - 1 ==> #[trigger] tried_prev[k] < tried_prev[k + 1],
        forall|k: int| 0 <= k < tried_prev.len() ==> 0 <= #[trigger] tried_prev[k] < i,
        forall|k: int|
            0 <= k < tried_prev.len() ==> fallback_resolution(
                st0,
                req_view,
                req_key,
                weight,
                kf[#[trigger] tried_prev[k]],
                trace_prev[k].0,
            ),
        forall|m: int|
            0 <= m < i && !tried_prev.contains(m) ==> st0.loads_to(
                Some(kf[m]),
                #[trigger] kf[m],
                weight,
                None,
            ),
        forall|k: int|
            0 <= k < trace_prev.len() ==> (#[trigger] trace_prev[k]).1 == replay_outcome(
                st0,
                sw0,
                cw0,
                sm0,
                cm0,
                walked_prev.take(k + 1),
                trace_prev[k].0,
            ),
        walked_prev == walk_faces(primary_face, trace_prev),
        0 <= i,
        fallback_resolution(st0, req_view, req_key, weight, kf[i], face),
        outcome == replay_outcome(st0, sw0, cw0, sm0, cm0, walked_prev, face),
    ensures
        ({
            let trace = trace_prev.push((face, outcome));
            let tried = tried_prev.push(i);
            let walked = walked_prev.push(face);
            &&& tried.len() == trace.len()
            &&& forall|k: int| 0 <= k < tried.len() - 1 ==> #[trigger] tried[k] < tried[k + 1]
            &&& forall|k: int| 0 <= k < tried.len() ==> 0 <= #[trigger] tried[k] < i + 1
            &&& forall|k: int|
                0 <= k < tried.len() ==> fallback_resolution(
                    st0,
                    req_view,
                    req_key,
                    weight,
                    kf[#[trigger] tried[k]],
                    trace[k].0,
                )
            &&& forall|m: int|
                0 <= m < i + 1 && !tried.contains(m) ==> st0.loads_to(
                    Some(kf[m]),
                    #[trigger] kf[m],
                    weight,
                    None,
                )
            &&& forall|k: int|
                0 <= k < trace.len() ==> (#[trigger] trace[k]).1 == replay_outcome(
                    st0,
                    sw0,
                    cw0,
                    sm0,
                    cm0,
                    walked.take(k + 1),
                    trace[k].0,
                )
            &&& walked == walk_faces(primary_face, trace)
            &&& trace.last() == (face, outcome)
        }),
{
    reveal(walk_faces);
    let trace = trace_prev.push((face, outcome));
    let tried = tried_prev.push(i);
    let walked = walked_prev.push(face);
    assert(trace.drop_last() =~= trace_prev);
    assert(walked.drop_last() =~= walked_prev);
    assert(walked =~= walk_faces(primary_face, trace)) by {
        assert(trace.map_values(|e: (usize, GlyphCoverageCheckResult)| e.0)
            =~= trace_prev.map_values(|e: (usize, GlyphCoverageCheckResult)| e.0).push(face));
    }
    assert forall|m: int|
        0 <= m < i + 1 && !tried.contains(m) implies st0.loads_to(
        Some(kf[m]),
        #[trigger] kf[m],
        weight,
        None,
    ) by {
        if m < i {
            assert(!tried_prev.contains(m)) by {
                if tried_prev.contains(m) {
                    let k0 = choose|k0: int| 0 <= k0 < tried_prev.len() && tried_prev[k0] == m;
                    assert(tried[k0] == m);
                }
            }
        } else {
            assert(tried[tried.len() - 1] == i);
        }
    }
    assert forall|k: int|
        0 <= k < trace.len() implies (#[trigger] trace[k]).1 == replay_outcome(
        st0,
        sw0,
        cw0,
        sm0,
        cm0,
        walked.take(k + 1),
        trace[k].0,
    ) by {
        if k < trace_prev.len() {
            assert(walked.take(k + 1) =~= walked_prev.take(k + 1));
            assert(trace[k] == trace_prev[k]);
        } else {
            assert(walked.take(k + 1) =~= walked_prev);
            assert(trace[k] == (face, outcome));
        }
    }
    assert forall|k: int|
        0 <= k < tried.len() implies fallback_resolution(
        st0,
        req_view,
        req_key,
        weight,
        kf[#[trigger] tried[k]],
        trace[k].0,
    ) by {
        if k < tried_prev.len() {
            assert(tried[k] == tried_prev[k]);
            assert(trace[k] == trace_prev[k]);
        } else {
            assert(tried[k] == i);
            assert(trace[k] == (face, outcome));
        }
    }
}

/// How a fallback family resolves during the walk: to the face its own
/// load yields on the pre-walk state — or, when the family coincides with
/// the request's cache key, to the request's own resolution (the walk
/// then reuses the cached primary answer).
/// The walk touches no face: every face's backing data and collection
/// index stay what they were on the pre-walk state.
pub closed spec fn faces_unchanged(st0: FontCache, cur: FontCache) -> bool {
    forall|f: int|
        0 <= f < st0.face_count() ==> #[trigger] cur.face_data(f) == st0.face_data(f)
            && cur.face_ttc_index(f) == st0.face_ttc_index(f)
}

#[verifier::opaque]
pub open spec fn fallback_resolution(
    st: FontCache,
    req_view: Option<Seq<char>>,
    req_key: Seq<char>,
    weight: u16,
    fam: Seq<char>,
    face: usize,
) -> bool {
    ||| st.loads_to(Some(fam), fam, weight, Some(LoadedFont { face_index: face }))
    ||| (fam == req_key && st.loads_to(req_view, req_key, weight, Some(LoadedFont { face_index: face })))
}

/// What holds of every cache entry the walk itself pushed: its key was
/// not cached before the walk, and its value is the entry's own
/// resolution on the pre-walk state (or the request's, for the primary).
#[verifier::opaque]
pub open spec fn pushed_claim(
    st: FontCache,
    req_view: Option<Seq<char>>,
    req_key: Seq<char>,
    weight: u16,
    ent: (String, u16, LoadedFont),
) -> bool {
    &&& font_cache_get(st.cache_entries(), ent.0@, ent.1) is None
    &&& (st.loads_to(Some(ent.0@), ent.0@, ent.1, Some(ent.2)) || (ent.0@ == req_key && ent.1
        == weight && st.loads_to(req_view, req_key, weight, Some(ent.2))))
}

/// Splitting a cache lookup over an appended suffix: the suffix answers
/// first (lookups scan from the end), the prefix otherwise.
proof fn lemma_cache_get_split(
    a: Seq<(String, u16, LoadedFont)>,
    b: Seq<(String, u16, LoadedFont)>,
    key: Seq<char>,
    w: u16,
)
    ensures
        font_cache_get(a + b, key, w) == (if font_cache_get(b, key, w) is Some {
            font_cache_get(b, key, w)
        } else {
            font_cache_get(a, key, w)
        }),
    decreases b.len(),
{
    if b.len() == 0 {
        assert(a + b =~= a);
    } else {
        assert((a + b).drop_last() =~= a + b.drop_last());
        assert((a + b).last() == b.last());
        lemma_cache_get_split(a, b.drop_last(), key, w);
    }
}

/// A successful cache lookup names one of the entries.
proof fn lemma_cache_get_witness(s: Seq<(String, u16, LoadedFont)>, key: Seq<char>, w: u16)
    requires
        font_cache_get(s, key, w) is Some,
    ensures
        exists|e: int|
            0 <= e < s.len() && (#[trigger] s[e]).0@ == key && s[e].1 == w && Some(s[e].2)
                == font_cache_get(s, key, w),
    decreases s.len(),
{
    if s.last().0@ == key && s.last().1 == w {
        assert(s[s.len() - 1] == s.last());
    } else {
        lemma_cache_get_witness(s.drop_last(), key, w);
        let e0 = choose|e0: int|
            0 <= e0 < s.drop_last().len() && (#[trigger] s.drop_last()[e0]).0@ == key
                && s.drop_last()[e0].1 == w && Some(s.drop_last()[e0].2) == font_cache_get(
                s.drop_last(),
                key,
                w,
            );
        assert(s[e0] == s.drop_last()[e0]);
    }
}

/// The walk's load relation carries back to the pre-walk state: the
/// database and face table are untouched, and every entry the walk
/// pushed satisfies `pushed_claim`, so a load answered mid-walk is the
/// same answer the pre-walk state gives (or the request's, on a key
/// collision with the primary).
proof fn lemma_loads_to_stable(
    st0: FontCache,
    cur: FontCache,
    req_view: Option<Seq<char>>,
    req_key: Seq<char>,
    weight: u16,
    fam: Seq<char>,
    result: Option<LoadedFont>,
)
    requires
        cur.available_fonts == st0.available_fonts,
        cur.face_ids@ == st0.face_ids@,
        cur.cache_entries().len() >= st0.cache_entries().len(),
        forall|e: int|
            0 <= e < st0.cache_entries().len() ==> #[trigger] cur.cache_entries()[e]
                == st0.cache_entries()[e],
        forall|e: int|
            st0.cache_entries().len() <= e < cur.cache_entries().len() ==> pushed_claim(
                st0,
                req_view,
                req_key,
                weight,
                #[trigger] cur.cache_entries()[e],
            ),
        cur.loads_to(Some(fam), fam, weight, result),
    ensures
        match result {
            Some(lf) => fallback_resolution(st0, req_view, req_key, weight, fam, lf.face_index),
            None => st0.loads_to(Some(fam), fam, weight, None),
        },
{
    reveal(FontCache::loads_to);
    reveal(fallback_resolution);
    reveal(pushed_claim);
    let a = st0.cache_entries();
    let b = cur.cache_entries().skip(a.len() as int);
    assert(cur.cache_entries() =~= a + b);
    lemma_cache_get_split(a, b, fam, weight);
    match font_cache_get(cur.cache_entries(), fam, weight) {
        Some(v) => {
            if font_cache_get(b, fam, weight) is Some {
                lemma_cache_get_witness(b, fam, weight);
                let e0 = choose|e0: int|
                    0 <= e0 < b.len() && (#[trigger] b[e0]).0@ == fam && b[e0].1 == weight && Some(
                        b[e0].2,
                    ) == font_cache_get(b, fam, weight);
                assert(b[e0] == cur.cache_entries()[a.len() + e0]);
                assert(pushed_claim(st0, req_view, req_key, weight, b[e0]));
            } else {
                assert(font_cache_get(a, fam, weight) == Some(v));
            }
        },
        None => {
        },
    }
}


/// Whether a required-script list holds a given script key.
pub open spec fn scripts_has_key(s: Seq<(u8, char)>, k: u8) -> bool {
    exists|p: int| 0 <= p < s.len() && (#[trigger] s[p]).0 == k
}

/// The required-script map of the first `n` characters of a text: for
/// every real script, its first non-skipped character becomes the sample,
/// in order of first appearance.
pub open spec fn spec_required_scripts(text: Seq<char>, n: int) -> Seq<(u8, char)>
    decreases n,
{
    if n <= 0 {
        Seq::empty()
    } else {
        let pre = spec_required_scripts(text, n - 1);
        let c = text[n - 1];
        if 0 < n <= text.len() && !skip_char(c) && !generic_script(c) && !scripts_has_key(
            pre,
            script_class(c),
        ) {
            pre.push((script_class(c), c))
        } else {
            pre
        }
    }
}

/// The required characters of the first `n` characters of a text: the
/// non-skipped characters of the generic scripts, each once, in order of
/// first appearance.
pub open spec fn spec_required_chars(text: Seq<char>, n: int) -> Seq<char>
    decreases n,
{
    if n <= 0 {
        Seq::empty()
    } else {
        let pre = spec_required_chars(text, n - 1);
        let c = text[n - 1];
        if 0 < n <= text.len() && !skip_char(c) && generic_script(c) && !pre.contains(c) {
            pre.push(c)
        } else {
            pre
        }
    }
}

/// Whether a required-script list holds a given script key.
fn scripts_contain_key(scripts: &Vec<(u8, char)>, key: u8) -> (r: bool)
    ensures
        r == scripts_has_key(scripts@, key),
{
    let n = scripts.len();
    let mut i: usize = 0;
    while i < n
        invariant
            0 <= i <= n,
            n == scripts@.len(),
            forall|p: int| 0 <= p < i ==> (#[trigger] scripts@[p]).0 != key,
        decreases n - i,
    {
        if scripts[i].0 == key {
            return true;
        }
        i += 1;
    }
    false
}

/// Whether a character list holds a given character.
fn chars_contain(chars: &Vec<char>, c: char) -> (r: bool)
    ensures
        r == chars@.contains(c),
{
    let n = chars.len();
    let mut i: usize = 0;
    while i < n
        invariant
            0 <= i <= n,
            n == chars@.len(),
            forall|p: int| 0 <= p < i ==> #[trigger] chars@[p] != c,
        decreases n - i,
    {
        if chars[i] == c {
            return true;
        }
        i += 1;
    }
    false
}

/// Partition a reference text into the coverage requirements: a map from
/// script to one sample character for every real script in the text, and
/// the set of individual characters of the generic scripts (Inherited,
/// Common, Unknown).  Control and whitespace characters are excluded; the
/// first character of a script becomes its sample.
#[verifier::loop_isolation(false)]
pub fn partition_required_coverage(reference_text: &Vec<char>) -> (r: (Vec<(u8, char)>, Vec<char>))
    ensures
        r.0@ == spec_required_scripts(reference_text@, reference_text@.len() as int),
        r.1@ == spec_required_chars(reference_text@, reference_text@.len() as int),
        unique_script_keys(r.0@),
        unique_chars(r.1@),
        forall|p: int|
            0 <= p < r.0@.len() ==> reference_text@.contains((#[trigger] r.0@[p]).1) && !skip_char(
                r.0@[p].1,
            ) && !generic_script(r.0@[p].1) && script_class(r.0@[p].1) == r.0@[p].0,
        forall|p: int|
            0 <= p < r.1@.len() ==> reference_text@.contains(#[trigger] r.1@[p]) && !skip_char(
                r.1@[p],
            ) && generic_script(r.1@[p]),
        forall|q: int|
            0 <= q < reference_text@.len() && !skip_char(#[trigger] reference_text@[q])
                && generic_script(reference_text@[q]) ==> r.1@.contains(reference_text@[q]),
        forall|q: int|
            0 <= q < reference_text@.len() && !skip_char(#[trigger] reference_text@[q])
                && !generic_script(reference_text@[q]) ==> exists|p: int|
                0 <= p < r.0@.len() && (#[trigger] r.0@[p]).0 == script_class(reference_text@[q]),
{
    let n = reference_text.len();
    let mut scripts: Vec<(u8, char)> = Vec::new();
    let mut chars: Vec<char> = Vec::new();
    let mut q: usize = 0;
    while q < n
        invariant
            0 <= q <= n,
            scripts@ == spec_required_scripts(reference_text@, q as int),
            chars@ == spec_required_chars(reference_text@, q as int),
            unique_script_keys(scripts@),
            unique_chars(chars@),
            forall|p: int|
                0 <= p < scripts@.len() ==> reference_text@.contains((#[trigger] scripts@[p]).1)
                    && !skip_char(scripts@[p].1) && !generic_script(scripts@[p].1) && script_class(
                    scripts@[p].1,
                ) == scripts@[p].0,
            forall|p: int|
                0 <= p < chars@.len() ==> reference_text@.contains(#[trigger] chars@[p])
                    && !skip_char(chars@[p]) && generic_script(chars@[p]),
            forall|j: int|
                0 <= j < q && !skip_char(#[trigger] reference_text@[j]) && generic_script(
                    reference_text@[j],
                ) ==> chars@.contains(reference_text@[j]),
            forall|j: int|
                0 <= j < q && !skip_char(#[trigger] reference_text@[j]) && !generic_script(
                    reference_text@[j],
                ) ==> exists|p: int|
                    0 <= p < scripts@.len() && (#[trigger] scripts@[p]).0 == script_class(
                        reference_text@[j],
                    ),
        decreases n - q,
    {
        let c = reference_text[q];
        let ghost chars_prev = chars@;
        let ghost scripts_prev = scripts@;
        if !is_control_char(c) && !is_whitespace_char(c) {
            let cls = script_class_of(c);
            if cls >= FIRST_GENERIC_SCRIPT {
                if !chars_contain(&chars, c) {
                    chars.push(c);
                    proof {
                        assert(chars@.last() == c);
                        assert(reference_text@.contains(c)) by {
                            assert(reference_text@[q as int] == c);
                        }
                        assert forall|x: char| chars_prev.contains(x) implies chars@.contains(
                            x,
                        ) by {
                            let w = choose|w: int| 0 <= w < chars_prev.len() && chars_prev[w] == x;
                            assert(chars@[w] == x);
                        }
                        assert(chars@.contains(c)) by {
                            assert(chars@[chars@.len() - 1] == c);
                        }
                    }
                } else {
                    proof {
                        assert(chars@.contains(c));
                    }
                }
            } else {
                if !scripts_contain_key(&scripts, cls) {
                    scripts.push((cls, c));
                    proof {
                        assert(scripts@.last() == (cls, c));
                        assert(reference_text@.contains(c)) by {
                            assert(reference_text@[q as int] == c);
                        }
                    }
                }
            }
        }
        q += 1;
        proof {
            assert forall|j: int|
                0 <= j < q && !skip_char(#[trigger] reference_text@[j]) && generic_script(
                    reference_text@[j],
                ) implies chars@.contains(reference_text@[j]) by {
                let tc = reference_text@[j];
                if j < q - 1 {
                    assert(chars_prev.contains(tc));
                    let w = choose|w: int| 0 <= w < chars_prev.len() && chars_prev[w] == tc;
                    assert(chars@[w] == tc);
                } else {
                    assert(tc == c);
                }
            }
            assert forall|j: int|
                0 <= j < q && !skip_char(#[trigger] reference_text@[j]) && !generic_script(
                    reference_text@[j],
                ) implies exists|p: int|
                0 <= p < scripts@.len() && (#[trigger] scripts@[p]).0 == script_class(
                    reference_text@[j],
                ) by {
                let tc = reference_text@[j];
                if j < q - 1 {
                    let w = choose|w: int|
                        0 <= w < scripts_prev.len() && scripts_prev[w].0 == script_class(tc);
                    assert(scripts@[w].0 == script_class(tc));
                } else {
                    assert(tc == c);
                    if exists|w: int|
                        0 <= w < scripts_prev.len() && (#[trigger] scripts_prev[w]).0
                            == script_class(c) {
                        let w = choose|w: int|
                            0 <= w < scripts_prev.len() && scripts_prev[w].0 == script_class(c);
                        assert(scripts@[w].0 == script_class(c));
                    } else {
                        assert(scripts@[scripts@.len() - 1].0 == script_class(c));
                    }
                }
            }
        }
    }
    let ghost gs = scripts@;
    let result = (scripts, chars);
    proof {
        assert forall|j: int|
            0 <= j < reference_text@.len() && !skip_char(#[trigger] reference_text@[j])
                && !generic_script(reference_text@[j]) implies exists|p: int|
            0 <= p < result.0@.len() && (#[trigger] result.0@[p]).0 == script_class(
                reference_text@[j],
            ) by {
            let w = choose|w: int|
                0 <= w < gs.len() && (#[trigger] gs[w]).0 == script_class(reference_text@[j]);
            assert(result.0@[w].0 == script_class(reference_text@[j]));
        }
    }
    result
}

impl FontCache {
    /// The platform fallback list, narrowed to the families the database
    /// knows, order kept: exactly what the fallback walk considers.
    pub open spec fn known_fallbacks(&self) -> Seq<Seq<char>> {
        known_names_from(self.fallback_names(), self.family_names(), 0)
    }

    /// The platform fallback family list, narrowed to the families that
    /// the face database knows.  Families are tried in the order the
    /// platform source returned them.
    #[verifier::loop_isolation(false)]
    pub fn font_fallbacks_for_request(&self) -> (r: Vec<String>)
        ensures
            r@.map_values(|s: String| s@) == self.known_fallbacks(),
            forall|p: int|
                0 <= p < r@.len() ==> self.known_family((#[trigger] r@[p])@)
                    && self.fallback_names().contains(r@[p]@),
    {
        let n = self.fallback_families.len();
        let mut out: Vec<String> = Vec::new();
        let mut i: usize = 0;
        proof {
            assert(out@.map_values(|s: String| s@) =~= Seq::<Seq<char>>::empty());
        }
        while i < n
            invariant
                0 <= i <= n,
                n == self.fallback_families@.len(),
                n == self.fallback_names().len(),
                self.known_fallbacks() == out@.map_values(|s: String| s@) + known_names_from(
                    self.fallback_names(),
                    self.family_names(),
                    i as int,
                ),
                forall|p: int|
                    0 <= p < out@.len() ==> self.known_family((#[trigger] out@[p])@)
                        && self.fallback_names().contains(out@[p]@),
            decreases n - i,
        {
            let ghost out_prev = out@;
            let fam = &self.fallback_families[i];
            let known = self.is_known_family(fam);
            proof {
                assert(self.fallback_names()[i as int] == fam@);
                assert(self.family_names().contains(fam@) == self.known_family(fam@)) by {
                    if self.known_family(fam@) {
                        let j0 = choose|j0: int|
                            0 <= j0 < self.available_families@.len() && (
                            #[trigger] self.available_families@[j0])@ == fam@;
                        assert(self.family_names()[j0] == fam@);
                    }
                    if self.family_names().contains(fam@) {
                        let j0 = choose|j0: int|
                            0 <= j0 < self.family_names().len()
                                && #[trigger] self.family_names()[j0] == fam@;
                        assert((self.available_families@[j0])@ == fam@);
                    }
                }
            }
            if known {
                out.push(fam.clone());
                proof {
                    assert(out@.map_values(|s: String| s@) =~= out_prev.map_values(
                        |s: String| s@,
                    ).push(fam@));
                    assert(out@.map_values(|s: String| s@) + known_names_from(
                        self.fallback_names(),
                        self.family_names(),
                        i as int + 1,
                    ) =~= out_prev.map_values(|s: String| s@) + known_names_from(
                        self.fallback_names(),
                        self.family_names(),
                        i as int,
                    ));
                }
            }
            i += 1;
        }
        proof {
            assert(known_names_from(self.fallback_names(), self.family_names(), n as int) =~= Seq::<
                Seq<char>,
            >::empty());
            assert(self.known_fallbacks() =~= out@.map_values(|s: String| s@));
        }
        out
    }

    /// Load one fallback family mid-walk and carry its resolution back to
    /// the pre-walk state; the claim on walk-pushed cache entries is kept.
    /// `None` when the database resolves nothing for the family.
    #[verifier::loop_isolation(false)]
    #[verifier::rlimit(100)]
    #[verifier::spinoff_prover]
    fn load_fallback_face(
        &mut self,
        fam: &String,
        weight: u16,
        Ghost(st0): Ghost<FontCache>,
        Ghost(req_view): Ghost<Option<Seq<char>>>,
        Ghost(req_key): Ghost<Seq<char>>,
    ) -> (r: Option<LoadedFont>)
        requires
            old(self).wf(),
            old(self).face_count() == st0.face_count(),
            old(self).available_fonts == st0.available_fonts,
            old(self).face_ids@ == st0.face_ids@,
            old(self).cache_entries().len() >= st0.cache_entries().len(),
            forall|e: int|
                0 <= e < st0.cache_entries().len() ==> #[trigger] old(self).cache_entries()[e]
                    == st0.cache_entries()[e],
            forall|e: int|
                st0.cache_entries().len() <= e < old(self).cache_entries().len() ==> pushed_claim(
                    st0,
                    req_view,
                    req_key,
                    weight,
                    #[trigger] old(self).cache_entries()[e],
                ),
            faces_unchanged(st0, *old(self)),
        ensures
            final(self).wf(),
            final(self).face_count() == st0.face_count(),
            final(self).available_fonts == st0.available_fonts,
            final(self).face_ids@ == st0.face_ids@,
            final(self).cache_entries().len() >= st0.cache_entries().len(),
            forall|e: int|
                0 <= e < st0.cache_entries().len() ==> #[trigger] final(self).cache_entries()[e]
                    == st0.cache_entries()[e],
            forall|e: int|
                st0.cache_entries().len() <= e < final(self).cache_entries().len()
                    ==> pushed_claim(
                    st0,
                    req_view,
                    req_key,
                    weight,
                    #[trigger] final(self).cache_entries()[e],
                ),
            faces_unchanged(st0, *final(self)),
            final(self).script_memo() == old(self).script_memo(),
            final(self).char_memo() == old(self).char_memo(),
            match r {
                Some(lf) => lf.face_index < st0.face_count() && fallback_resolution(
                    st0,
                    req_view,
                    req_key,
                    weight,
                    fam@,
                    lf.face_index,
                ),
                None => st0.loads_to(Some(fam@), fam@, weight, None),
            },
    {
        let ghost st_pre = *old(self);
        let r = self.load_single_font(Some(fam), weight);
        proof {
            lemma_loads_to_stable(st0, st_pre, req_view, req_key, weight, fam@, r);
            if r is Some {
                reveal(FontCache::loads_to);
                reveal(fallback_resolution);
                reveal(pushed_claim);
                assert forall|e: int|
                    st0.cache_entries().len() <= e
                        < self.cache_entries().len() implies pushed_claim(
                    st0,
                    req_view,
                    req_key,
                    weight,
                    #[trigger] self.cache_entries()[e],
                ) by {
                    if e < st_pre.cache_entries().len() {
                        assert(self.cache_entries()[e] == st_pre.cache_entries()[e]);
                        assert(pushed_claim(
                            st0,
                            req_view,
                            req_key,
                            weight,
                            st_pre.cache_entries()[e],
                        ));
                    } else {
                        assert(self.cache_entries()[e] == self.cache_entries().last());
                        let a = st0.cache_entries();
                        let b = st_pre.cache_entries().skip(a.len() as int);
                        assert(st_pre.cache_entries() =~= a + b);
                        lemma_cache_get_split(a, b, fam@, weight);
                    }
                }
            }
        }
        proof {
            assert(faces_unchanged(st0, *self)) by {
                assert forall|f: int|
                    0 <= f < st0.face_count() implies #[trigger] self.face_data(f)
                    == st0.face_data(f) && self.face_ttc_index(f) == st0.face_ttc_index(f) by {
                    assert(self.face_data(f) == st0.face_data(f));
                    assert(self.face_ttc_index(f) == st0.face_ttc_index(f));
                }
            }
        }
        r
    }

    /// Run one coverage check mid-walk and restate it at the replay
    /// level: the sets and memos step to the replay state of the grown
    /// walk, and the outcome is the replay's classification.
    #[verifier::loop_isolation(false)]
    #[verifier::rlimit(100)]
    #[verifier::spinoff_prover]
    fn check_step(
        &mut self,
        scripts_required: &mut Vec<(u8, char)>,
        chars_required: &mut Vec<char>,
        face: usize,
        Ghost(st0): Ghost<FontCache>,
        Ghost(sw0): Ghost<Seq<(u8, char)>>,
        Ghost(cw0): Ghost<Seq<char>>,
        Ghost(sm0): Ghost<Seq<((usize, u8), bool)>>,
        Ghost(cm0): Ghost<Seq<((usize, char), bool)>>,
        Ghost(walked): Ghost<Seq<usize>>,
    ) -> (outcome: GlyphCoverageCheckResult)
        requires
            old(self).wf(),
            old(self).face_count() == st0.face_count(),
            face < st0.face_count(),
            old(self).available_fonts == st0.available_fonts,
            old(self).face_ids@ == st0.face_ids@,
            (old(scripts_required)@, old(chars_required)@, old(self).script_memo(),
            old(self).char_memo()) == replay_state(st0, sw0, cw0, sm0, cm0, walked),
            faces_unchanged(st0, *old(self)),
            unique_script_keys(old(scripts_required)@),
            unique_chars(old(chars_required)@),
        ensures
            final(self).wf(),
            final(self).face_count() == st0.face_count(),
            final(self).available_fonts == st0.available_fonts,
            final(self).face_ids@ == st0.face_ids@,
            final(self).cache_entries() == old(self).cache_entries(),
            faces_unchanged(st0, *final(self)),
            unique_script_keys(final(scripts_required)@),
            unique_chars(final(chars_required)@),
            (final(scripts_required)@, final(chars_required)@, final(self).script_memo(),
            final(self).char_memo()) == replay_state(st0, sw0, cw0, sm0, cm0, walked.push(face)),
            outcome == replay_outcome(st0, sw0, cw0, sm0, cm0, walked, face),
    {
        proof {
            assert(old(self).face_data(face as int) == st0.face_data(face as int));
            assert(old(self).face_ttc_index(face as int) == st0.face_ttc_index(face as int));
        }
        let outcome = self.check_and_update_script_coverage(
            scripts_required,
            chars_required,
            face,
        );
        proof {
            lemma_replay_step(st0, sw0, cw0, sm0, cm0, walked, walked.push(face), face);
            assert((scripts_required@, chars_required@, self.script_memo(), self.char_memo())
                == replay_state(st0, sw0, cw0, sm0, cm0, walked.push(face)));
        }
        proof {
            assert(faces_unchanged(st0, *self)) by {
                assert forall|f: int|
                    0 <= f < st0.face_count() implies #[trigger] self.face_data(f)
                    == st0.face_data(f) && self.face_ttc_index(f) == st0.face_ttc_index(f) by {
                    assert(self.face_data(f) == st0.face_data(f));
                    assert(self.face_ttc_index(f) == st0.face_ttc_index(f));
                }
            }
        }
        outcome
    }

    /// Walk the known fallback families in order while coverage is not
    /// complete: load each family, run its coverage check, keep the faces
    /// whose check shrank the uncovered sets, and record the whole walk.
    /// Returns the kept faces (primary first), how many families were
    /// considered, and the trace with its family positions.
    #[verifier::loop_isolation(false)]
    #[verifier::rlimit(100)]
    #[verifier::spinoff_prover]
    fn walk_fallbacks(
        &mut self,
        fallbacks: Vec<String>,
        weight: u16,
        primary: LoadedFont,
        scripts_required: &mut Vec<(u8, char)>,
        chars_required: &mut Vec<char>,
        coverage_result0: GlyphCoverageCheckResult,
        Ghost(st0): Ghost<FontCache>,
        Ghost(req_view): Ghost<Option<Seq<char>>>,
        Ghost(req_key): Ghost<Seq<char>>,
        Ghost(kf): Ghost<Seq<Seq<char>>>,
        Ghost(sw0): Ghost<Seq<(u8, char)>>,
        Ghost(cw0): Ghost<Seq<char>>,
        Ghost(sm0): Ghost<Seq<((usize, u8), bool)>>,
        Ghost(cm0): Ghost<Seq<((usize, char), bool)>>,
        Ghost(primary_check): Ghost<GlyphCoverageCheckResult>,
    ) -> (r: (Vec<usize>, usize, Ghost<Seq<(usize, GlyphCoverageCheckResult)>>, Ghost<Seq<int>>))
        requires
            old(self).wf(),
            old(self).face_count() == st0.face_count(),
            old(self).available_fonts == st0.available_fonts,
            old(self).face_ids@ == st0.face_ids@,
            old(self).cache_entries().len() >= st0.cache_entries().len(),
            forall|e: int|
                0 <= e < st0.cache_entries().len() ==> #[trigger] old(self).cache_entries()[e]
                    == st0.cache_entries()[e],
            forall|e: int|
                st0.cache_entries().len() <= e < old(self).cache_entries().len() ==> pushed_claim(
                    st0,
                    req_view,
                    req_key,
                    weight,
                    #[trigger] old(self).cache_entries()[e],
                ),
            primary.face_index < old(self).face_count(),
            coverage_result0 == primary_check,
            fallbacks@.len() == 0 || fallbacks@.map_values(|s: String| s@) == kf,
            fallbacks@.len() == 0 ==> kf.len() == 0 || primary_check
                == GlyphCoverageCheckResult::Complete,
            fallbacks@.len() <= kf.len() || fallbacks@.len() == 0,
            (old(scripts_required)@, old(chars_required)@, old(self).script_memo(), old(
                self,
            ).char_memo()) == replay_state(
                st0,
                sw0,
                cw0,
                sm0,
                cm0,
                walk_faces(primary.face_index, Seq::empty()),
            ),
            primary_check == replay_outcome(
                st0,
                sw0,
                cw0,
                sm0,
                cm0,
                Seq::empty(),
                primary.face_index,
            ),
            faces_unchanged(st0, *old(self)),
            unique_script_keys(old(scripts_required)@),
            unique_chars(old(chars_required)@),
        ensures
            ({
                let fonts = r.0@;
                let considered = r.1 as int;
                let trace = r.2@;
                let tried = r.3@;
                &&& final(self).wf()
                &&& final(self).face_count() == st0.face_count()
                &&& fonts == seq![primary.face_index] + improved_faces(trace)
                &&& forall|k: int|
                    0 <= k < trace.len() ==> (#[trigger] trace[k]).0 < st0.face_count()
                &&& forall|k: int|
                    0 <= k < trace.len() - 1 ==> (#[trigger] trace[k]).1
                        != GlyphCoverageCheckResult::Complete
                &&& tried.len() == trace.len()
                &&& 0 <= considered <= kf.len()
                &&& forall|k: int|
                    0 <= k < tried.len() - 1 ==> #[trigger] tried[k] < tried[k + 1]
                &&& forall|k: int|
                    0 <= k < tried.len() ==> 0 <= #[trigger] tried[k] < considered
                &&& forall|k: int|
                    0 <= k < tried.len() ==> fallback_resolution(
                        st0,
                        req_view,
                        req_key,
                        weight,
                        kf[#[trigger] tried[k]],
                        trace[k].0,
                    )
                &&& forall|m: int|
                    0 <= m < considered && !tried.contains(m) ==> st0.loads_to(
                        Some(kf[m]),
                        #[trigger] kf[m],
                        weight,
                        None,
                    )
                &&& (considered < kf.len() ==> (if trace.len() == 0 {
                    primary_check == GlyphCoverageCheckResult::Complete
                } else {
                    trace.last().1 == GlyphCoverageCheckResult::Complete
                }))
                &&& forall|k: int|
                    0 <= k < trace.len() ==> (#[trigger] trace[k]).1 == replay_outcome(
                        st0,
                        sw0,
                        cw0,
                        sm0,
                        cm0,
                        walk_faces(primary.face_index, trace).take(k + 1),
                        trace[k].0,
                    )
                &&& (final(scripts_required)@, final(chars_required)@, final(self).script_memo(),
                final(self).char_memo()) == replay_state(
                    st0,
                    sw0,
                    cw0,
                    sm0,
                    cm0,
                    walk_faces(primary.face_index, trace),
                )
            }),
    {
        let ghost st_entry = *old(self);
        let mut coverage_result = coverage_result0;
        let mut complete = matches!(coverage_result, GlyphCoverageCheckResult::Complete);
        let ghost mut walked: Seq<usize> = walk_faces(primary.face_index, Seq::empty());
        let mut fonts: Vec<usize> = Vec::new();
        fonts.push(primary.face_index);
        let ghost mut trace: Seq<(usize, GlyphCoverageCheckResult)> = Seq::empty();
        let ghost mut tried: Seq<int> = Seq::empty();
        proof {
            assert(improved_faces(trace) =~= Seq::<usize>::empty());
            assert(fonts@ =~= seq![primary.face_index] + improved_faces(trace));
        }
        let mut i: usize = 0;
        while i < fallbacks.len() && !complete
            invariant
                self.wf(),
                self.face_count() == st0.face_count(),
                self.available_fonts == st0.available_fonts,
                self.face_ids@ == st0.face_ids@,
                self.cache_entries().len() >= st0.cache_entries().len(),
                forall|e: int|
                    0 <= e < st0.cache_entries().len() ==> #[trigger] self.cache_entries()[e]
                        == st0.cache_entries()[e],
                forall|e: int|
                    st0.cache_entries().len() <= e < self.cache_entries().len() ==> pushed_claim(
                        st0,
                        req_view,
                        req_key,
                        weight,
                        #[trigger] self.cache_entries()[e],
                    ),
                primary.face_index < self.face_count(),
                fonts@ == seq![primary.face_index] + improved_faces(trace),
                forall|k: int|
                    0 <= k < trace.len() ==> (#[trigger] trace[k]).0 < self.face_count(),
                forall|k: int|
                    0 <= k < trace.len() - 1 ==> (#[trigger] trace[k]).1
                        != GlyphCoverageCheckResult::Complete,
                trace.len() > 0 ==> trace.last().1 == coverage_result,
                trace.len() == 0 ==> coverage_result == primary_check,
                complete == (coverage_result == GlyphCoverageCheckResult::Complete),
                0 <= i <= fallbacks@.len(),
                tried.len() == trace.len(),
                forall|k: int| 0 <= k < tried.len() - 1 ==> #[trigger] tried[k] < tried[k + 1],
                forall|k: int| 0 <= k < tried.len() ==> 0 <= #[trigger] tried[k] < i,
                forall|k: int|
                    0 <= k < tried.len() ==> fallback_resolution(
                        st0,
                        req_view,
                        req_key,
                        weight,
                        kf[#[trigger] tried[k]],
                        trace[k].0,
                    ),
                forall|m: int|
                    0 <= m < i && !tried.contains(m) ==> st0.loads_to(
                        Some(kf[m]),
                        #[trigger] kf[m],
                        weight,
                        None,
                    ),
                walked == walk_faces(primary.face_index, trace),
                (scripts_required@, chars_required@, self.script_memo(), self.char_memo())
                    == replay_state(st0, sw0, cw0, sm0, cm0, walked),
                forall|k: int|
                    0 <= k < trace.len() ==> (#[trigger] trace[k]).1 == replay_outcome(
                        st0,
                        sw0,
                        cw0,
                        sm0,
                        cm0,
                        walked.take(k + 1),
                        trace[k].0,
                    ),
                faces_unchanged(st0, *self),
                unique_script_keys(scripts_required@),
                unique_chars(chars_required@),
            decreases fallbacks@.len() - i,
        {
            let fam = &fallbacks[i];
            proof {
                assert(fallbacks@.map_values(|s: String| s@)[i as int] == fam@);
                assert(kf[i as int] == fam@);
            }
            match self.load_fallback_face(fam, weight, Ghost(st0), Ghost(req_view), Ghost(req_key)) {
                Some(fallback_font) => {
                    let face = fallback_font.face_index;
                    let outcome = self.check_step(
                        scripts_required,
                        chars_required,
                        face,
                        Ghost(st0),
                        Ghost(sw0),
                        Ghost(cw0),
                        Ghost(sm0),
                        Ghost(cm0),
                        Ghost(walked),
                    );
                    coverage_result = outcome;
                    complete = matches!(coverage_result, GlyphCoverageCheckResult::Complete);
                    let ghost trace_prev = trace;
                    proof {
                        lemma_walk_ghost_step(
                            st0,
                            req_view,
                            req_key,
                            weight,
                            kf,
                            sw0,
                            cw0,
                            sm0,
                            cm0,
                            primary.face_index,
                            trace,
                            tried,
                            walked,
                            face,
                            outcome,
                            i as int,
                        );
                        trace = trace.push((face, outcome));
                        tried = tried.push(i as int);
                        walked = walked.push(face);
                    }
                    if !matches!(coverage_result, GlyphCoverageCheckResult::Incomplete) {
                        fonts.push(face);
                    }
                    proof {
                        assert(trace.drop_last() =~= trace_prev);
                        assert(trace.last() == (face, coverage_result));
                        assert(fonts@ =~= seq![primary.face_index] + improved_faces(trace));
                    }
                },
                None => {
                    proof {
                        assert forall|m: int|
                            0 <= m < i + 1 && !tried.contains(m) implies st0.loads_to(
                            Some(kf[m]),
                            #[trigger] kf[m],
                            weight,
                            None,
                        ) by {}
                    }
                },
            }
            i += 1;
        }
        let ghost considered: int = i as int;
        proof {
            if considered < kf.len() {
                if fallbacks@.len() == 0 {
                    assert(primary_check == GlyphCoverageCheckResult::Complete);
                    assert(trace.len() == 0) by {
                        if tried.len() > 0 {
                            assert(0 <= tried[0] < i);
                        }
                    }
                    assert(coverage_result == primary_check);
                } else {
                    assert(fallbacks@.map_values(|s: String| s@).len() == kf.len());
                    assert(i < fallbacks@.len());
                }
                assert(complete);
            }
        }
        (fonts, i, Ghost(trace), Ghost(tried))
    }

    /// Select the font for a request and a reference text: load the
    /// primary (family, weight) face, and while the reference text is not
    /// fully covered, walk the known platform fallback families in order,
    /// loading each and keeping exactly those that strictly shrink the
    /// still-uncovered sets (their check improves or completes
    /// coverage); stop early once coverage is complete.  `None` exactly
    /// when the primary face cannot be loaded.
    #[verifier::loop_isolation(false)]
    #[verifier::rlimit(100)]
    #[verifier::spinoff_prover]
    pub fn font(
        &mut self,
        request: &FontRequest,
        scale_factor: ScaleFactor,
        reference_text: &Vec<char>,
    ) -> (r: Option<Font>)
        requires
            old(self).wf(),
            scale_factor.is_valid(),
        ensures
            final(self).wf(),
            final(self).face_count() == old(self).face_count(),
            ({
                let w = match request.weight {
                    Some(w0) => w0,
                    None => DEFAULT_FONT_WEIGHT,
                };
                let req_view = match request.family {
                    Some(f) => Some(f@),
                    None => None,
                };
                let req_key = match request.family {
                    Some(f) => f@,
                    None => Seq::empty(),
                };
                let kf = old(self).known_fallbacks();
                match r {
                    Some(font) => {
                        &&& font.pixel_size == clamp_to_u32(
                            physical_of_logical(
                                (match request.pixel_size {
                                    Some(s) => s,
                                    None => DEFAULT_FONT_SIZE,
                                }) as int,
                                scale_factor.units as int,
                            ),
                        )
                        &&& old(self).loads_to(
                            req_view,
                            req_key,
                            w,
                            Some(LoadedFont { face_index: font.primary@ }),
                        )
                        &&& font.fonts@.len() >= 1
                        &&& font.fonts@ == seq![font.primary@] + improved_faces(font.trace@)
                        &&& font.fonts@[0] == font.primary@
                        &&& font.primary@ < final(self).face_count()
                        &&& forall|k: int|
                            0 <= k < font.trace@.len() ==> (#[trigger] font.trace@[k]).0
                                < final(self).face_count()
                        &&& forall|k: int|
                            0 <= k < font.trace@.len() - 1 ==> (#[trigger] font.trace@[k]).1
                                != GlyphCoverageCheckResult::Complete
                        &&& font.tried@.len() == font.trace@.len()
                        &&& 0 <= font.considered@ <= kf.len()
                        &&& forall|k: int|
                            0 <= k < font.tried@.len() - 1 ==> #[trigger] font.tried@[k]
                                < font.tried@[k + 1]
                        &&& forall|k: int|
                            0 <= k < font.tried@.len() ==> 0 <= #[trigger] font.tried@[k]
                                < font.considered@
                        &&& forall|k: int|
                            0 <= k < font.tried@.len() ==> fallback_resolution(
                                *old(self),
                                req_view,
                                req_key,
                                w,
                                kf[#[trigger] font.tried@[k]],
                                font.trace@[k].0,
                            )
                        &&& forall|m: int|
                            0 <= m < font.considered@ && !font.tried@.contains(m) ==> old(
                                self,
                            ).loads_to(Some(kf[m]), #[trigger] kf[m], w, None)
                        &&& (font.considered@ < kf.len() ==> (if font.trace@.len() == 0 {
                            font.primary_check@ == GlyphCoverageCheckResult::Complete
                        } else {
                            font.trace@.last().1 == GlyphCoverageCheckResult::Complete
                        }))
                        &&& walk_outcome_ok(
                            *old(self),
                            reference_text@,
                            font.primary@,
                            font.trace@,
                            font.primary_check@,
                        )
                        &&& final(self).script_memo() == replay_state(
                            *old(self),
                            spec_required_scripts(reference_text@, reference_text@.len() as int),
                            spec_required_chars(reference_text@, reference_text@.len() as int),
                            old(self).script_memo(),
                            old(self).char_memo(),
                            walk_faces(font.primary@, font.trace@),
                        ).2
                        &&& final(self).char_memo() == replay_state(
                            *old(self),
                            spec_required_scripts(reference_text@, reference_text@.len() as int),
                            spec_required_chars(reference_text@, reference_text@.len() as int),
                            old(self).script_memo(),
                            old(self).char_memo(),
                            walk_faces(font.primary@, font.trace@),
                        ).3
                    },
                    None => old(self).loads_to(req_view, req_key, w, None),
                }
            }),
    {
        let ghost st0 = *old(self);
        let logical_size = match request.pixel_size {
            Some(s) => s,
            None => DEFAULT_FONT_SIZE,
        };
        let pixel_size = physical_extent_of_logical(logical_size, scale_factor);
        let weight = match request.weight {
            Some(w) => w,
            None => DEFAULT_FONT_WEIGHT,
        };
        let ghost req_view: Option<Seq<char>> = match &request.family {
            Some(f) => Some(f@),
            None => None,
        };
        let ghost req_key: Seq<char> = match &request.family {
            Some(f) => f@,
            None => Seq::empty(),
        };
        let ghost kf = st0.known_fallbacks();
        let ghost sw0 = spec_required_scripts(reference_text@, reference_text@.len() as int);
        let ghost cw0 = spec_required_chars(reference_text@, reference_text@.len() as int);
        let ghost sm0 = st0.script_memo();
        let ghost cm0 = st0.char_memo();

        let family_ref = request.family.as_ref();
        proof {
            assert(spec_opt_family(family_ref) == req_view);
            assert(Self::spec_family_key(family_ref) == req_key);
        }
        let primary = match self.load_single_font(family_ref, weight) {
            Some(lf) => lf,
            None => {
                return None;
            },
        };
        proof {
            // The primary load either left the cache alone (a hit) or
            // pushed its own resolution; either way every new entry
            // satisfies the walk's push claim.
            reveal(FontCache::loads_to);
            reveal(pushed_claim);
            assert forall|e: int|
                st0.cache_entries().len() <= e < self.cache_entries().len() implies pushed_claim(
                st0,
                req_view,
                req_key,
                weight,
                #[trigger] self.cache_entries()[e],
            ) by {
                assert(self.cache_entries()[e] == self.cache_entries().last());
            }
        }

        let (mut scripts_required, mut chars_required) = partition_required_coverage(
            reference_text,
        );

        proof {
            assert(scripts_required@ == sw0);
            assert(chars_required@ == cw0);
        }
        let mut coverage_result = self.check_and_update_script_coverage(
            &mut scripts_required,
            &mut chars_required,
            primary.face_index,
        );
        let ghost primary_check = coverage_result;
        proof {
            reveal(walk_faces);
            reveal(replay_state);
            reveal(replay_outcome);
            let walked0: Seq<usize> = walk_faces(primary.face_index, Seq::empty());
            assert(walked0 =~= seq![primary.face_index]);
            lemma_replay_step(
                st0,
                sw0,
                cw0,
                sm0,
                cm0,
                Seq::empty(),
                walked0,
                primary.face_index,
            );
            assert((scripts_required@, chars_required@, self.script_memo(), self.char_memo())
                == replay_state(st0, sw0, cw0, sm0, cm0, walked0));
            assert(primary_check == replay_outcome(
                st0,
                sw0,
                cw0,
                sm0,
                cm0,
                Seq::empty(),
                primary.face_index,
            ));
        }

        let mut complete = matches!(coverage_result, GlyphCoverageCheckResult::Complete);
        let fallbacks: Vec<String> = if !complete {
            let fb = self.font_fallbacks_for_request();
            proof {
                assert(self.fallback_names() == st0.fallback_names());
                assert(self.family_names() == st0.family_names());
                assert(fb@.map_values(|s: String| s@) == kf);
            }
            fb
        } else {
            Vec::new()
        };

        proof {
            assert(faces_unchanged(st0, *self)) by {
                assert forall|f: int|
                    0 <= f < st0.face_count() implies #[trigger] self.face_data(f)
                    == st0.face_data(f) && self.face_ttc_index(f) == st0.face_ttc_index(f) by {
                    assert(self.face_data(f) == st0.face_data(f));
                    assert(self.face_ttc_index(f) == st0.face_ttc_index(f));
                }
            }
        }
        let walk = self.walk_fallbacks(
            fallbacks,
            weight,
            primary,
            &mut scripts_required,
            &mut chars_required,
            coverage_result,
            Ghost(st0),
            Ghost(req_view),
            Ghost(req_key),
            Ghost(kf),
            Ghost(sw0),
            Ghost(cw0),
            Ghost(sm0),
            Ghost(cm0),
            Ghost(primary_check),
        );
        let (fonts, considered_count, trace_g, tried_g) = walk;
        proof {
            assert(walk_outcome_ok(st0, reference_text@, primary.face_index, trace_g@, primary_check));
        }
        Some(
            Font {
                fonts,
                pixel_size,
                primary: Ghost(primary.face_index),
                trace: trace_g,
                tried: tried_g,
                considered: Ghost(considered_count as int),
                primary_check: Ghost(primary_check),
            },
        )
    }
}

/// Load idempotence, exported for callers that cannot unfold the load
/// relation: on a cache hit, the only result the relation admits is the
/// cached font.
pub proof fn lemma_loads_to_cache_hit(
    st: FontCache,
    family: Option<Seq<char>>,
    key: Seq<char>,
    weight: u16,
    result: Option<LoadedFont>,
)
    requires
        font_cache_get(st.cache_entries(), key, weight) is Some,
        st.loads_to(family, key, weight, result),
    ensures
        result == font_cache_get(st.cache_entries(), key, weight),
{
    reveal(FontCache::loads_to);
}

/// An evaluated fallback trace records face `f` with an outcome that
/// shrank the uncovered sets.
pub open spec fn trace_keeps(t: Seq<(usize, GlyphCoverageCheckResult)>, f: usize) -> bool {
    exists|i: int|
        0 <= i < t.len() && (#[trigger] t[i]).0 == f && t[i].1
            != GlyphCoverageCheckResult::Incomplete
}

/// Fallback minimality: every face the selection keeps comes from an
/// evaluated fallback whose coverage check shrank the uncovered sets (it
/// did not report Incomplete), and the kept list never exceeds the
/// evaluated one.
pub proof fn lemma_fallback_minimality(t: Seq<(usize, GlyphCoverageCheckResult)>)
    ensures
        improved_faces(t).len() <= t.len(),
        forall|j: int|
            0 <= j < improved_faces(t).len() ==> trace_keeps(t, #[trigger] improved_faces(t)[j]),
    decreases t.len(),
{
    if t.len() == 0 {
    } else {
        lemma_fallback_minimality(t.drop_last());
        let pre = improved_faces(t.drop_last());
        assert forall|j: int|
            0 <= j < improved_faces(t).len() implies trace_keeps(
            t,
            #[trigger] improved_faces(t)[j],
        ) by {
            if j < pre.len() {
                assert(trace_keeps(t.drop_last(), pre[j]));
                let i0 = choose|i0: int|
                    0 <= i0 < t.drop_last().len() && (#[trigger] t.drop_last()[i0]).0 == pre[j]
                        && t.drop_last()[i0].1 != GlyphCoverageCheckResult::Incomplete;
                assert(t[i0].0 == pre[j] && t[i0].1 != GlyphCoverageCheckResult::Incomplete);
                assert(improved_faces(t)[j] == pre[j]);
            } else {
                assert(improved_faces(t)[j] == t[t.len() - 1].0);
                assert(t[t.len() - 1].1 != GlyphCoverageCheckResult::Incomplete);
            }
        }
    }
}

} // verus!
