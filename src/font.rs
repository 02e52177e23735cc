use vstd::prelude::*;
use vstd::string::StringSliceAdditionalSpecFns;

verus! {

#[verifier::external_type_specification]
#[verifier::external_body]
pub struct ExFace<'a>(rustybuzz::Face<'a>);

/// One glyph of a shaped run, in font design units.
#[derive(Clone, Copy, Debug, PartialEq, Eq, Structural)]
pub struct ShapedGlyph {
    pub glyph_id: u32,
    pub x_advance: i32,
    pub y_advance: i32,
    pub x_offset: i32,
    pub y_offset: i32,
}

/// Whether the bytes parse as a font face (face index 0).
pub uninterp spec fn parses_as_face(font: Seq<u8>) -> bool;

/// Design units per em of the face parsed from `font`.
pub uninterp spec fn units_per_em_of(font: Seq<u8>) -> i32;

/// The glyph that the face's character map gives to `c`.
pub uninterp spec fn glyph_index_of(font: Seq<u8>, c: char) -> Option<u16>;

/// The horizontal advance that the face records for a glyph.
pub uninterp spec fn hor_advance_of(font: Seq<u8>, glyph: u16) -> Option<u16>;

/// The vertical extent `(y_min, y_max)` of a glyph's outline, if it has one.
pub uninterp spec fn outline_extent_of(font: Seq<u8>, glyph: u16) -> Option<(i16, i16)>;

/// The glyph stream that shaping `text` in the given direction yields.
pub uninterp spec fn shaped_of(font: Seq<u8>, text: Seq<u8>, rtl: bool) -> Seq<ShapedGlyph>;

/// A parsed font face, together with the bytes it was parsed from.
pub struct FontFace<'a> {
    face: rustybuzz::Face<'a>,
    bytes: Ghost<Seq<u8>>,
}

/// Relies on rustybuzz::Face::from_slice: parses the bytes as a font face.
#[verifier::external_body]
pub(crate) fn face_from_slice<'a>(font: &'a [u8]) -> (r: Option<rustybuzz::Face<'a>>)
    ensures
        r.is_some() == parses_as_face(font@),
{
    rustybuzz::Face::from_slice(font, 0)
}

/// Relies on rustybuzz::Face::units_per_em, the head table's value, which
/// ttf_parser's parsing holds to 16..=16384.
#[verifier::external_body]
pub(crate) fn face_units_per_em(face: &FontFace) -> (r: i32)
    ensures
        r == units_per_em_of(face.font()),
        16 <= r <= 16384,
{
    face.face.units_per_em()
}

/// Relies on ttf_parser::Face::glyph_index: the character map's glyph for `c`.
#[verifier::external_body]
pub(crate) fn face_glyph_index(face: &FontFace, c: char) -> (r: Option<u16>)
    ensures
        r == glyph_index_of(face.font(), c),
{
    face.face.glyph_index(c).map(|g| g.0)
}

/// Relies on ttf_parser::Face::glyph_hor_advance: the advance recorded for a glyph.
#[verifier::external_body]
pub(crate) fn face_glyph_hor_advance(face: &FontFace, glyph: u16) -> (r: Option<u16>)
    ensures
        r == hor_advance_of(face.font(), glyph),
{
    face.face.glyph_hor_advance(rustybuzz::ttf_parser::GlyphId(glyph))
}

/// Relies on ttf_parser::Face::glyph_bounding_box, which outlines the glyph and
/// returns the outline's bounds, or `None` where the glyph has no outline.
#[verifier::external_body]
pub(crate) fn face_outline_extent(face: &FontFace, glyph: u16) -> (r: Option<(i16, i16)>)
    ensures
        r == outline_extent_of(face.font(), glyph),
{
    face.face.glyph_bounding_box(rustybuzz::ttf_parser::GlyphId(glyph)).map(|b| (b.y_min, b.y_max))
}

/// Relies on rustybuzz::shape, with the script and language guessed from the
/// text and the direction given: the positioned glyphs of one run.
#[verifier::external_body]
pub(crate) fn face_shape(face: &FontFace, text: &str, rtl: bool) -> (r: Vec<ShapedGlyph>)
    ensures
        r@ == shaped_of(face.font(), text.spec_bytes(), rtl),
{
    let mut buffer = rustybuzz::UnicodeBuffer::new();
    buffer.push_str(text);
    buffer.guess_segment_properties();
    buffer.set_direction(
        if rtl { rustybuzz::Direction::RightToLeft } else { rustybuzz::Direction::LeftToRight },
    );
    let output = rustybuzz::shape(&face.face, &[], buffer);
    output.glyph_infos().iter().zip(output.glyph_positions().iter()).map(|(i, p)| ShapedGlyph {
        glyph_id: i.glyph_id,
        x_advance: p.x_advance,
        y_advance: p.y_advance,
        x_offset: p.x_offset,
        y_offset: p.y_offset,
    }).collect()
}

impl<'a> FontFace<'a> {
    /// The bytes this face was parsed from.
    pub closed spec fn font(&self) -> Seq<u8> {
        self.bytes@
    }

    /// Parses `font` as a face; `None` where the bytes are no font.
    pub fn parse(font: &'a [u8]) -> (r: Option<FontFace<'a>>)
        ensures
            r.is_some() == parses_as_face(font@),
            r matches Some(f) ==> f.font() == font@,
    {
        match face_from_slice(font) {
            Some(face) => Some(FontFace { face, bytes: Ghost(font@) }),
            None => None,
        }
    }
}

} // verus!
