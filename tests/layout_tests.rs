use text_path::align::Align;
use text_path::bidi::{any_ltr_level, bidi_lines, slice, Run};
use text_path::font::{FontFace, ShapedGlyph};
use text_path::layout::{glyph_rise, place_glyph, plan_layout, LayoutError};

fn glyph(id: u32, x_advance: i32, y_advance: i32, x_offset: i32, y_offset: i32) -> ShapedGlyph {
    ShapedGlyph { glyph_id: id, x_advance, y_advance, x_offset, y_offset }
}

fn translation(a: Align, x: f32, y: f32, w: f32, h: f32) -> (f32, f32) {
    let (kx, ky) = a.half_shifts();
    (x - w * kx as f32 / 2.0, y + h * ky as f32 / 2.0)
}

#[test]
fn alignment_translations_for_a_100_by_40_block() {
    assert_eq!(translation(Align::L, 350.0, 100.0, 100.0, 40.0), (350.0, 100.0));
    assert_eq!(translation(Align::R, 350.0, 100.0, 100.0, 40.0), (250.0, 100.0));
    assert_eq!(translation(Align::M, 350.0, 100.0, 100.0, 40.0), (300.0, 100.0));
    assert_eq!(translation(Align::C, 350.0, 100.0, 100.0, 40.0), (300.0, 120.0));
    assert_eq!(translation(Align::CL, 350.0, 100.0, 100.0, 40.0), (350.0, 120.0));
    assert_eq!(translation(Align::CR, 350.0, 100.0, 100.0, 40.0), (250.0, 120.0));
}

#[test]
fn outlined_glyph_keeps_its_own_advance() {
    let p = place_glyph(glyph(36, 1401, -3, 5, 7), Some((0, 1493)), 651);
    assert!(p.outlined);
    assert_eq!(p.glyph_id, 36);
    assert_eq!((p.advance_x, p.advance_y), (1401, -3));
    assert_eq!((p.x_offset, p.y_offset), (5, 7));
}

#[test]
fn glyph_without_outline_advances_by_space_width() {
    let p = place_glyph(glyph(3, 1200, 40, 0, 0), None, 651);
    assert!(!p.outlined);
    assert_eq!((p.advance_x, p.advance_y), (651, 0));
}

#[test]
fn run_of_spaces_advances_by_k_space_widths() {
    let total: i32 = (0..4).map(|_| place_glyph(glyph(3, 512, 0, 0, 0), None, 600)).map(|p| {
        assert!(!p.outlined);
        p.advance_x
    }).sum();
    assert_eq!(total, 4 * 600);
}

#[test]
fn second_glyph_starts_after_first_advance() {
    let a = place_glyph(glyph(36, 1401, 0, 0, 0), Some((0, 1493)), 651);
    let b = place_glyph(glyph(37, 1405, 0, 0, 0), Some((0, 1493)), 651);
    assert!(a.outlined && b.outlined);
    assert_eq!((a.advance_x, a.advance_y), (1401, 0));
    assert_eq!((b.x_offset, b.y_offset), (0, 0));
}

#[test]
fn rise_is_outline_height_plus_vertical_advance() {
    assert_eq!(glyph_rise(glyph(1, 0, 10, 0, 0), Some((-200, 1500))), 1710);
    assert_eq!(glyph_rise(glyph(1, 0, 10, 0, 0), None), 0);
}

#[test]
fn ltr_level_detection() {
    assert!(any_ltr_level(&vec![1, 1, 2]));
    assert!(!any_ltr_level(&vec![1, 3, 1]));
    assert!(!any_ltr_level(&vec![]));
}

#[test]
fn slice_respects_char_boundaries() {
    let s = "aé b";
    assert_eq!(slice(s, 0, 3), Some("aé"));
    assert_eq!(slice(s, 0, 2), None);
    assert_eq!(slice(s, 3, 6), None);
    assert_eq!(slice(s, 4, 5), Some("b"));
}

#[test]
fn empty_text_has_no_paragraphs() {
    assert!(bidi_lines("").is_empty());
}

#[test]
fn paragraphs_cover_the_text() {
    let text = "first line\nsecond\u{2029}third";
    let lines = bidi_lines(text);
    assert_eq!(lines.len(), 3);
    assert_eq!(lines[0].start, 0);
    assert_eq!(lines.last().unwrap().end, text.len());
    for w in lines.windows(2) {
        assert_eq!(w[0].end, w[1].start);
    }
    assert_eq!((lines[0].start, lines[0].end), (0, 11));
}

#[test]
fn trailing_white_space_is_not_laid_out() {
    let lines = bidi_lines("ab  \ncd");
    assert_eq!(lines.len(), 2);
    assert_eq!((lines[0].start, lines[0].line_end, lines[0].end), (0, 2, 5));
    assert_eq!(lines[0].runs, vec![Run { start: 0, end: 2, rtl: false }]);
    assert_eq!(lines[1].line_end, 7);
}

#[test]
fn pure_ltr_runs_keep_logical_order() {
    let lines = bidi_lines("Hello, world 123");
    assert_eq!(lines.len(), 1);
    assert_eq!(lines[0].runs, vec![Run { start: 0, end: 16, rtl: false }]);
}

#[test]
fn mixed_directions_give_alternating_runs() {
    let text = "abc \u{5d0}\u{5d1}\u{5d2} def";
    let lines = bidi_lines(text);
    assert_eq!(lines.len(), 1);
    let runs = &lines[0].runs;
    assert!(runs.len() >= 2);
    for w in runs.windows(2) {
        assert_ne!(w[0].rtl, w[1].rtl);
    }
    assert_eq!(
        runs,
        &vec![
            Run { start: 0, end: 4, rtl: false },
            Run { start: 4, end: 10, rtl: true },
            Run { start: 10, end: 14, rtl: false },
        ]
    );
}

#[test]
fn rtl_only_text_keeps_its_own_base_level() {
    let lines = bidi_lines("\u{5d0}\u{5d1} \u{5d2}");
    assert_eq!(lines.len(), 1);
    assert_eq!(lines[0].runs, vec![Run { start: 0, end: 7, rtl: true }]);
}

#[test]
fn bytes_that_are_no_font_are_refused() {
    assert!(FontFace::parse(&[0u8, 1, 2, 3]).is_none());
    assert!(matches!(plan_layout(&[0u8; 16], "AB"), Err(LayoutError::Font)));
    assert!(matches!(plan_layout(&[], ""), Err(LayoutError::Font)));
}

#[test]
fn directions_follow_level_parity() {
    let levels = vec![0u8, 0, 1, 1, 2, 2];
    let runs = text_path::bidi::runs_with_directions(&levels, &vec![(0, 2), (4, 6), (2, 4), (6, 6)]);
    assert_eq!(
        runs,
        vec![
            Run { start: 0, end: 2, rtl: false },
            Run { start: 4, end: 6, rtl: false },
            Run { start: 2, end: 4, rtl: true },
            Run { start: 6, end: 6, rtl: false },
        ]
    );
}

fn be16(out: &mut Vec<u8>, v: u16) {
    out.extend_from_slice(&v.to_be_bytes());
}

fn be32(out: &mut Vec<u8>, v: u32) {
    out.extend_from_slice(&v.to_be_bytes());
}

fn square(out: &mut Vec<u8>, x0: i16, x1: i16, top: i16) {
    for v in [1i16, x0, 0, x1, top, 3, 0] {
        be16(out, v as u16);
    }
    out.extend_from_slice(&[1, 1, 1, 1]);
    for v in [x0, x1 - x0, 0, x0 - x1] {
        be16(out, v as u16);
    }
    for v in [0i16, 0, top, 0] {
        be16(out, v as u16);
    }
}

/// A TrueType font of four glyphs: an empty .notdef, 'A' a 400 by 700 square
/// with advance 600, 'B' a 400 by 600 square with advance 500, and an empty
/// space with advance 250; 1000 units per em.
fn tiny_font() -> Vec<u8> {
    let mut glyf = Vec::new();
    square(&mut glyf, 100, 500, 700);
    let b_start = glyf.len();
    square(&mut glyf, 50, 450, 600);
    let end = glyf.len();
    let mut loca = Vec::new();
    for off in [0, 0, b_start, end, end] {
        be16(&mut loca, (off / 2) as u16);
    }
    let mut cmap = Vec::new();
    for v in [0u16, 1, 0, 4] {
        be16(&mut cmap, v);
    }
    be32(&mut cmap, 12);
    be16(&mut cmap, 12);
    be16(&mut cmap, 0);
    be32(&mut cmap, 16 + 2 * 12);
    be32(&mut cmap, 0);
    be32(&mut cmap, 2);
    for v in [0x20u32, 0x20, 3, 0x41, 0x42, 1] {
        be32(&mut cmap, v);
    }
    let mut head = Vec::new();
    for v in [0x0001_0000u32, 0x0001_0000, 0, 0x5F0F_3CF5] {
        be32(&mut head, v);
    }
    be16(&mut head, 0);
    be16(&mut head, 1000);
    head.extend_from_slice(&[0u8; 16]);
    for v in [50i16, 0, 500, 700, 0, 8, 2, 0, 0] {
        be16(&mut head, v as u16);
    }
    let mut hhea = Vec::new();
    be32(&mut hhea, 0x0001_0000);
    for v in [800i16, -200, 0, 600, 0, 0, 500, 1, 0, 0, 0, 0, 0, 0, 0, 4] {
        be16(&mut hhea, v as u16);
    }
    let mut hmtx = Vec::new();
    for v in [500u16, 0, 600, 100, 500, 50, 250, 0] {
        be16(&mut hmtx, v);
    }
    let mut maxp = Vec::new();
    be32(&mut maxp, 0x0000_5000);
    be16(&mut maxp, 4);
    let tables: Vec<(&[u8; 4], Vec<u8>)> = vec![
        (b"cmap", cmap),
        (b"glyf", glyf),
        (b"head", head),
        (b"hhea", hhea),
        (b"hmtx", hmtx),
        (b"loca", loca),
        (b"maxp", maxp),
    ];
    let mut font = Vec::new();
    be32(&mut font, 0x0001_0000);
    be16(&mut font, tables.len() as u16);
    for v in [64u16, 2, 48] {
        be16(&mut font, v);
    }
    let mut offset = 12 + 16 * tables.len();
    let mut body = Vec::new();
    for (tag, data) in &tables {
        font.extend_from_slice(&tag[..]);
        be32(&mut font, 0);
        be32(&mut font, offset as u32);
        be32(&mut font, data.len() as u32);
        body.extend_from_slice(data);
        while body.len() % 4 != 0 {
            body.push(0);
        }
        offset = 12 + 16 * tables.len() + body.len();
    }
    font.extend_from_slice(&body);
    font
}

#[test]
fn two_latin_letters_lay_out_left_to_right() {
    let font = tiny_font();
    let layout = plan_layout(&font, "AB").unwrap();
    assert_eq!(layout.units_per_em, 1000);
    assert_eq!(layout.lines.len(), 1);
    let glyphs = &layout.lines[0].glyphs;
    assert_eq!(glyphs.len(), 2);
    assert_eq!((glyphs[0].glyph_id, glyphs[1].glyph_id), (1, 2));
    assert!(glyphs[0].outlined && glyphs[1].outlined);
    assert_eq!((glyphs[0].advance_x, glyphs[0].advance_y), (600, 0));
    assert_eq!((glyphs[1].advance_x, glyphs[1].advance_y), (500, 0));
    assert_eq!(layout.lines[0].height, 700);
}

#[test]
fn spaces_use_the_space_width_and_draw_nothing() {
    let font = tiny_font();
    let layout = plan_layout(&font, "A   B").unwrap();
    let glyphs = &layout.lines[0].glyphs;
    assert_eq!(glyphs.len(), 5);
    for g in &glyphs[1..4] {
        assert!(!g.outlined);
        assert_eq!((g.advance_x, g.advance_y), (250, 0));
    }
    let total: i32 = glyphs[1..4].iter().map(|g| g.advance_x).sum();
    assert_eq!(total, 3 * 250);
}

#[test]
fn unmapped_glyphs_fall_back_to_the_space_width() {
    let font = tiny_font();
    let layout = plan_layout(&font, "AzB").unwrap();
    let glyphs = &layout.lines[0].glyphs;
    assert_eq!(glyphs.len(), 3);
    assert_eq!(glyphs[1].glyph_id, 0);
    assert!(!glyphs[1].outlined);
    assert_eq!(glyphs[1].advance_x, 250);
}

#[test]
fn paragraphs_are_stacked_with_their_own_heights() {
    let font = tiny_font();
    let layout = plan_layout(&font, "A\nB").unwrap();
    assert_eq!(layout.lines.len(), 2);
    assert_eq!(layout.lines[0].height, 700);
    assert_eq!(layout.lines[1].height, 600);
}

#[test]
fn empty_text_lays_out_nothing() {
    let font = tiny_font();
    assert!(matches!(plan_layout(&font, ""), Err(LayoutError::Empty)));
    assert!(matches!(plan_layout(&font, "   "), Err(LayoutError::Empty)));
}

#[test]
fn same_input_gives_the_same_layout() {
    let font = tiny_font();
    let text = "AB \u{5d0}\u{5d1} BA\nB A";
    let a = plan_layout(&font, text).unwrap();
    let b = plan_layout(&font, text).unwrap();
    assert_eq!(a.lines.len(), 2);
    for (x, y) in a.lines.iter().zip(b.lines.iter()) {
        assert_eq!(x.glyphs, y.glyphs);
        assert_eq!(x.height, y.height);
    }
}

#[test]
fn embedded_ltr_levels_keep_logical_order() {
    let text = "ab\u{202a}cd\u{202c}ef";
    let lines = bidi_lines(text);
    assert_eq!(lines.len(), 1);
    let runs = &lines[0].runs;
    assert!(runs.len() >= 2);
    assert_eq!(runs[0].start, 0);
    assert_eq!(runs.last().unwrap().end, text.len());
    for w in runs.windows(2) {
        assert_eq!(w[0].end, w[1].start);
    }
    assert!(runs.iter().all(|r| !r.rtl));
}

#[test]
fn blank_paragraph_has_an_empty_line() {
    let lines = bidi_lines("  \u{a0}\nA");
    assert_eq!(lines.len(), 2);
    assert_eq!((lines[0].start, lines[0].line_end, lines[0].end), (0, 0, 5));
    assert_eq!(lines[0].runs, vec![Run { start: 0, end: 0, rtl: false }]);
}

#[test]
fn trimming_stops_at_a_multibyte_character() {
    let lines = bidi_lines("a\u{e9} \u{3000}");
    assert_eq!(lines.len(), 1);
    assert_eq!(lines[0].line_end, 3);
    assert_eq!(lines[0].end, 7);
}
