use crate::font::ShapedGlyph;
use crate::layout::{
    extent_of, is_plan_of, placement_of, placements_of, space_advance_of, LinePlan, Placement,
};
use vstd::prelude::*;

verus! {

/// How far a sequence of placements moves the pen across.
pub open spec fn advance_x_total(ps: Seq<Placement>) -> int
    decreases ps.len(),
{
    if ps.len() == 0 {
        0
    } else {
        advance_x_total(ps.drop_last()) + ps.last().advance_x
    }
}

/// A line is a function of the font's bytes, the text's bytes and the line's
/// index: two layouts of the same text in the same font agree.
pub proof fn layout_is_deterministic(font: Seq<u8>, text: Seq<u8>, i: int, a: LinePlan, b: LinePlan)
    requires
        is_plan_of(font, text, a, i),
        is_plan_of(font, text, b, i),
    ensures
        a.glyphs@ == b.glyphs@,
        a.height == b.height,
{
}

/// Glyphs without an outline, such as spaces, draw nothing, and each moves the
/// pen across by the width of the face's space glyph and not up or down: `k`
/// of them advance it by `k` space widths.
pub proof fn blank_glyphs_advance_by_spaces(font: Seq<u8>, gs: Seq<ShapedGlyph>)
    requires
        forall|i: int| 0 <= i < gs.len() ==> (#[trigger] extent_of(font, gs[i])).is_none(),
    ensures
        advance_x_total(placements_of(font, gs)) == gs.len() * space_advance_of(font),
        forall|i: int|
            0 <= i < gs.len() ==> !(#[trigger] placements_of(font, gs)[i]).outlined
                && placements_of(font, gs)[i].advance_y == 0,
    decreases gs.len(),
{
    if gs.len() > 0 {
        let rest = gs.drop_last();
        assert forall|i: int| 0 <= i < rest.len() implies (#[trigger] extent_of(
            font,
            rest[i],
        )).is_none() by {
            assert(rest[i] == gs[i]);
        }
        blank_glyphs_advance_by_spaces(font, rest);
        assert(placements_of(font, gs).drop_last() =~= placements_of(font, rest));
        assert(extent_of(font, gs[gs.len() - 1]).is_none());
        let ps = placements_of(font, gs);
        assert(ps.last() == placement_of(gs.last(), extent_of(font, gs.last()), space_advance_of(font)));
        assert(ps.last().advance_x == space_advance_of(font) as i32);
        assert(advance_x_total(ps) == advance_x_total(ps.drop_last()) + ps.last().advance_x);
        assert(advance_x_total(ps) == rest.len() * space_advance_of(font) + space_advance_of(font));
        assert(gs.len() * space_advance_of(font) == rest.len() * space_advance_of(font)
            + space_advance_of(font)) by (nonlinear_arith)
            requires
                gs.len() == rest.len() + 1,
        ;
    } else {
        assert(placements_of(font, gs).len() == 0);
    }
}

} // verus!
