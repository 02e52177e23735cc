use crate::bidi::{bidi_lines, is_line_of, line_runs_of, paragraphs_of, slice, sliceable, Run};
use crate::font::{
    face_glyph_hor_advance, face_glyph_index, face_outline_extent, face_shape, face_units_per_em,
    glyph_index_of, hor_advance_of, outline_extent_of, parses_as_face, shaped_of,
    units_per_em_of, FontFace, ShapedGlyph,
};
use vstd::prelude::*;
use vstd::string::StringSliceAdditionalSpecFns;

verus! {

/// Where one glyph goes, in font design units. The pen moves by
/// `(advance_x, advance_y)` after the glyph; its outline, if `outlined`, is
/// drawn at the pen plus `(x_offset, y_offset)`.
#[derive(Clone, Copy, Debug, PartialEq, Eq, Structural)]
pub struct Placement {
    pub glyph_id: u32,
    pub outlined: bool,
    pub x_offset: i32,
    pub y_offset: i32,
    pub advance_x: i32,
    pub advance_y: i32,
}

/// A glyph with an outline moves the pen by its own advance; one without moves
/// it across by the width of a space instead, and not up or down.
pub open spec fn placement_of(g: ShapedGlyph, extent: Option<(i16, i16)>, space: u16) -> Placement {
    Placement {
        glyph_id: g.glyph_id,
        outlined: extent.is_some(),
        x_offset: g.x_offset,
        y_offset: g.y_offset,
        advance_x: if extent.is_some() { g.x_advance } else { space as i32 },
        advance_y: if extent.is_some() { g.y_advance } else { 0 },
    }
}

/// How far a glyph reaches for the line's height: its outline's height plus its
/// vertical advance; nothing for a glyph without outline.
pub open spec fn rise_of(g: ShapedGlyph, extent: Option<(i16, i16)>) -> int {
    match extent {
        Some(e) => e.1 - e.0 + g.y_advance,
        None => 0,
    }
}

/// The horizontal advance of the face's space glyph (glyph 0 where the face
/// maps no space), 0 where none is recorded.
pub open spec fn space_advance_of(font: Seq<u8>) -> u16 {
    let glyph = match glyph_index_of(font, ' ') {
        Some(g) => g,
        None => 0,
    };
    match hor_advance_of(font, glyph) {
        Some(a) => a,
        None => 0,
    }
}

/// The outline extent of a shaped glyph.
pub open spec fn extent_of(font: Seq<u8>, g: ShapedGlyph) -> Option<(i16, i16)> {
    outline_extent_of(font, g.glyph_id as u16)
}

/// The glyphs that a run shapes to; none where its range is not on character
/// boundaries.
pub open spec fn run_glyphs_of(font: Seq<u8>, text: Seq<u8>, run: Run) -> Seq<ShapedGlyph> {
    if sliceable(text, run.start as int, run.end as int) {
        shaped_of(font, text.subrange(run.start as int, run.end as int), run.rtl)
    } else {
        Seq::empty()
    }
}

/// The glyphs of the runs, one run after the other.
pub open spec fn runs_glyphs_of(font: Seq<u8>, text: Seq<u8>, runs: Seq<Run>) -> Seq<ShapedGlyph>
    decreases runs.len(),
{
    if runs.len() == 0 {
        Seq::empty()
    } else {
        runs_glyphs_of(font, text, runs.drop_last()) + run_glyphs_of(font, text, runs.last())
    }
}

/// The placements of a glyph stream.
pub open spec fn placements_of(font: Seq<u8>, gs: Seq<ShapedGlyph>) -> Seq<Placement> {
    gs.map_values(|g: ShapedGlyph| placement_of(g, extent_of(font, g), space_advance_of(font)))
}

/// The height of a line: the largest rise among its glyphs, and at least 0.
pub open spec fn line_height_of(font: Seq<u8>, gs: Seq<ShapedGlyph>) -> int
    decreases gs.len(),
{
    if gs.len() == 0 {
        0
    } else {
        let h = line_height_of(font, gs.drop_last());
        let r = rise_of(gs.last(), extent_of(font, gs.last()));
        if r > h {
            r
        } else {
            h
        }
    }
}

/// One laid-out paragraph, in design units.
#[derive(Debug)]
pub struct LinePlan {
    pub glyphs: Vec<Placement>,
    pub height: i64,
}

/// The glyphs of the whole text, line by line, in design units.
#[derive(Debug)]
pub struct Layout {
    pub units_per_em: i32,
    pub lines: Vec<LinePlan>,
}

/// Why a text cannot be laid out.
#[derive(Clone, Copy, Debug, PartialEq, Eq, Structural)]
pub enum LayoutError {
    /// The bytes are no font.
    Font,
    /// No glyph of the text has an outline: nothing would be drawn.
    Empty,
}

/// `line` is paragraph `i` of the text laid out in the font.
pub open spec fn is_plan_of(font: Seq<u8>, text: Seq<u8>, line: LinePlan, i: int) -> bool {
    let gs = runs_glyphs_of(font, text, line_runs_of(text, i));
    &&& line.glyphs@ == placements_of(font, gs)
    &&& line.height == line_height_of(font, gs)
}

/// Some glyph of the text, laid out in the font, has an outline.
pub open spec fn draws_something(font: Seq<u8>, text: Seq<u8>) -> bool {
    exists|i: int, j: int|
        0 <= i < paragraphs_of(text).len() && 0 <= j < placements_of(
            font,
            runs_glyphs_of(font, text, line_runs_of(text, i)),
        ).len() && (#[trigger] placements_of(
            font,
            runs_glyphs_of(font, text, line_runs_of(text, i)),
        )[j]).outlined
}

/// Places one shaped glyph, given its outline extent and the space width.
pub fn place_glyph(g: ShapedGlyph, extent: Option<(i16, i16)>, space: u16) -> (r: Placement)
    ensures
        r == placement_of(g, extent, space),
{
    match extent {
        Some(_) => Placement {
            glyph_id: g.glyph_id,
            outlined: true,
            x_offset: g.x_offset,
            y_offset: g.y_offset,
            advance_x: g.x_advance,
            advance_y: g.y_advance,
        },
        None => Placement {
            glyph_id: g.glyph_id,
            outlined: false,
            x_offset: g.x_offset,
            y_offset: g.y_offset,
            advance_x: space as i32,
            advance_y: 0,
        },
    }
}

/// The rise of one glyph, given its outline extent.
pub fn glyph_rise(g: ShapedGlyph, extent: Option<(i16, i16)>) -> (r: i64)
    ensures
        r == rise_of(g, extent),
{
    match extent {
        Some(e) => e.1 as i64 - e.0 as i64 + g.y_advance as i64,
        None => 0,
    }
}

/// The width of the face's space glyph, in design units.
fn space_advance(face: &FontFace) -> (r: u16)
    ensures
        r == space_advance_of(face.font()),
{
    let glyph = match face_glyph_index(face, ' ') {
        Some(g) => g,
        None => 0,
    };
    match face_glyph_hor_advance(face, glyph) {
        Some(a) => a,
        None => 0,
    }
}

/// Shapes one run and appends its placements to `glyphs`, raising `height` to
/// the largest rise met.
fn lay_out_run(
    face: &FontFace,
    text: &str,
    run: Run,
    space: u16,
    glyphs: &mut Vec<Placement>,
    height: &mut i64,
    shaped: Ghost<Seq<ShapedGlyph>>,
) -> (done: Ghost<Seq<ShapedGlyph>>)
    requires
        space == space_advance_of(face.font()),
        old(glyphs)@ == placements_of(face.font(), shaped@),
        *old(height) == line_height_of(face.font(), shaped@),
    ensures
        done@ == shaped@ + run_glyphs_of(face.font(), text.spec_bytes(), run),
        final(glyphs)@ == placements_of(face.font(), done@),
        *final(height) == line_height_of(face.font(), done@),
{
    let ghost font = face.font();
    let ghost mut acc = shaped@;
    match slice(text, run.start, run.end) {
        Some(part) => {
            let out = face_shape(face, part, run.rtl);
            let mut k: usize = 0;
            while k < out.len()
                invariant
                    space == space_advance_of(font),
                    font == face.font(),
                    k <= out@.len(),
                    acc == shaped@ + out@.subrange(0, k as int),
                    glyphs@ == placements_of(font, acc),
                    *height == line_height_of(font, acc),
                decreases out@.len() - k,
            {
                let g = out[k];
                let extent = face_outline_extent(face, g.glyph_id as u16);
                glyphs.push(place_glyph(g, extent, space));
                let rise = glyph_rise(g, extent);
                if rise > *height {
                    *height = rise;
                }
                proof {
                    let next = acc.push(g);
                    assert(next.drop_last() =~= acc);
                    assert(glyphs@ =~= placements_of(font, next));
                    acc = next;
                    assert(acc =~= shaped@ + out@.subrange(0, k + 1));
                }
                k += 1;
            }
            assert(out@.subrange(0, out@.len() as int) =~= out@);
        },
        None => {
            assert(shaped@ + Seq::<ShapedGlyph>::empty() =~= shaped@);
        },
    }
    Ghost(acc)
}

/// Lays out one line: its runs' glyphs, one run after the other.
fn lay_out_line(face: &FontFace, text: &str, runs: &Vec<Run>, space: u16) -> (r: LinePlan)
    requires
        space == space_advance_of(face.font()),
    ensures
        r.glyphs@ == placements_of(face.font(), runs_glyphs_of(face.font(), text.spec_bytes(), runs@)),
        r.height == line_height_of(face.font(), runs_glyphs_of(face.font(), text.spec_bytes(), runs@)),
{
    let ghost font = face.font();
    let ghost bytes = text.spec_bytes();
    let mut glyphs: Vec<Placement> = Vec::new();
    let mut height: i64 = 0;
    let ghost mut shaped: Seq<ShapedGlyph> = Seq::empty();
    assert(glyphs@ =~= placements_of(font, shaped));
    let mut k: usize = 0;
    while k < runs.len()
        invariant
            space == space_advance_of(font),
            font == face.font(),
            bytes == text.spec_bytes(),
            k <= runs@.len(),
            shaped == runs_glyphs_of(font, bytes, runs@.subrange(0, k as int)),
            glyphs@ == placements_of(font, shaped),
            height == line_height_of(font, shaped),
        decreases runs@.len() - k,
    {
        let done = lay_out_run(face, text, runs[k], space, &mut glyphs, &mut height, Ghost(shaped));
        proof {
            assert(runs@.subrange(0, k + 1).drop_last() =~= runs@.subrange(0, k as int));
            shaped = done@;
        }
        k += 1;
    }
    assert(runs@.subrange(0, runs@.len() as int) =~= runs@);
    LinePlan { glyphs, height }
}

/// Whether some placement has an outline.
fn any_outlined(lines: &Vec<LinePlan>) -> (r: bool)
    ensures
        r == exists|i: int, j: int|
            0 <= i < lines@.len() && 0 <= j < lines@[i].glyphs@.len()
                && (#[trigger] lines@[i].glyphs@[j]).outlined,
{
    let mut i: usize = 0;
    while i < lines.len()
        invariant
            i <= lines@.len(),
            forall|a: int, b: int|
                0 <= a < i && 0 <= b < lines@[a].glyphs@.len() ==> !(
                #[trigger] lines@[a].glyphs@[b]).outlined,
        decreases lines@.len() - i,
    {
        let glyphs = &lines[i].glyphs;
        let mut j: usize = 0;
        while j < glyphs.len()
            invariant
                i < lines@.len(),
                glyphs@ == lines@[i as int].glyphs@,
                j <= glyphs@.len(),
                forall|b: int| 0 <= b < j ==> !(#[trigger] glyphs@[b]).outlined,
            decreases glyphs@.len() - j,
        {
            if glyphs[j].outlined {
                return true;
            }
            j += 1;
        }
        i += 1;
    }
    false
}

/// Lays out the text in the font given as bytes: its paragraphs, one line
/// each, with the glyphs of each line's visual runs in screen order. Fails
/// where the bytes are no font, or where no glyph has an outline.
pub fn plan_layout(font: &[u8], text: &str) -> (r: Result<Layout, LayoutError>)
    ensures
        !parses_as_face(font@) <==> r == Err::<Layout, LayoutError>(LayoutError::Font),
        parses_as_face(font@) ==> (r == Err::<Layout, LayoutError>(LayoutError::Empty)
            <==> !draws_something(font@, text.spec_bytes())),
        parses_as_face(font@) && text.spec_bytes().len() == 0 ==> r == Err::<Layout, LayoutError>(
            LayoutError::Empty,
        ),
        r matches Ok(l) ==> {
            &&& l.units_per_em == units_per_em_of(font@)
            &&& l.lines@.len() == paragraphs_of(text.spec_bytes()).len()
            &&& forall|i: int|
                0 <= i < l.lines@.len() ==> is_plan_of(
                    font@,
                    text.spec_bytes(),
                    #[trigger] l.lines@[i],
                    i,
                )
        },
{
    let face = match FontFace::parse(font) {
        Some(f) => f,
        None => return Err(LayoutError::Font),
    };
    let space = space_advance(&face);
    let paras = bidi_lines(text);
    let mut lines: Vec<LinePlan> = Vec::new();
    let mut i: usize = 0;
    while i < paras.len()
        invariant
            face.font() == font@,
            space == space_advance_of(font@),
            paras@.len() == paragraphs_of(text.spec_bytes()).len(),
            forall|j: int| 0 <= j < paras@.len() ==> is_line_of(text.spec_bytes(), #[trigger] paras@[j], j),
            i <= paras@.len(),
            lines@.len() == i,
            forall|j: int| 0 <= j < i ==> is_plan_of(font@, text.spec_bytes(), #[trigger] lines@[j], j),
        decreases paras@.len() - i,
    {
        assert(is_line_of(text.spec_bytes(), paras@[i as int], i as int));
        let line = lay_out_line(&face, text, &paras[i].runs, space);
        lines.push(line);
        i += 1;
    }
    if any_outlined(&lines) {
        Ok(Layout { units_per_em: face_units_per_em(&face), lines })
    } else {
        proof {
            assert forall|a: int, b: int|
                0 <= a < paragraphs_of(text.spec_bytes()).len() && 0 <= b < placements_of(
                    font@,
                    runs_glyphs_of(font@, text.spec_bytes(), line_runs_of(text.spec_bytes(), a)),
                ).len() implies !(#[trigger] placements_of(
                    font@,
                    runs_glyphs_of(font@, text.spec_bytes(), line_runs_of(text.spec_bytes(), a)),
                )[b]).outlined by {
                assert(is_plan_of(font@, text.spec_bytes(), lines@[a], a));
                assert(!lines@[a].glyphs@[b].outlined);
            }
        }
        Err(LayoutError::Empty)
    }
}

} // verus!
