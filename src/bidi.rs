use vstd::prelude::*;
use vstd::string::StringSliceAdditionalSpecFns;
use vstd::utf8::is_char_boundary;

verus! {

/// What the bidi resolver finds in the text with these bytes: the level of each
/// byte and, for each paragraph, its byte range and base level.
pub uninterp spec fn bidi_analysis_of(text: Seq<u8>, forced_ltr: bool) -> (
    Seq<u8>,
    Seq<(usize, usize, u8)>,
);

/// The line-adjusted levels and the visual runs, in screen order, of the line
/// `[paragraph start, line_end)` of the given paragraph.
pub uninterp spec fn visual_runs_of(text: Seq<u8>, forced_ltr: bool, para: int, line_end: int) -> (
    Seq<u8>,
    Seq<(usize, usize)>,
);

/// The text with these bytes, its trailing white space removed.
pub uninterp spec fn trim_end_of(text: Seq<u8>) -> Seq<u8>;

/// Paragraph ranges that follow one another, each non-empty, from byte 0 to `len`.
pub open spec fn partitions(paras: Seq<(usize, usize, u8)>, len: int) -> bool {
    &&& (paras.len() == 0 <==> len == 0)
    &&& paras.len() > 0 ==> paras[0].0 == 0 && paras.last().1 == len
    &&& forall|i: int| 0 <= i < paras.len() ==> #[trigger] paras[i].0 < paras[i].1
    &&& forall|i: int| 0 <= i < paras.len() - 1 ==> #[trigger] paras[i].1 == paras[i + 1].0
}

/// Paragraph ranges that begin and end on character boundaries of the text.
pub open spec fn on_char_boundaries(paras: Seq<(usize, usize, u8)>, text: Seq<u8>) -> bool {
    forall|i: int|
        0 <= i < paras.len() ==> is_char_boundary(text, #[trigger] paras[i].0 as int)
            && is_char_boundary(text, paras[i].1 as int)
}

/// Runs that follow one another in logical order from `start` to `end`.
pub open spec fn in_logical_order(runs: Seq<(usize, usize)>, start: int, end: int) -> bool {
    &&& runs.len() > 0
    &&& runs[0].0 == start
    &&& runs.last().1 == end
    &&& forall|j: int| 0 <= j < runs.len() - 1 ==> #[trigger] runs[j].1 == runs[j + 1].0
}

/// White space as `char::is_whitespace` documents it: the characters with the
/// Unicode White_Space property.
pub open spec fn is_white_space(c: char) -> bool {
    ('\u{9}' <= c <= '\u{d}') || c == ' ' || c == '\u{85}' || c == '\u{a0}' || c == '\u{1680}'
        || ('\u{2000}' <= c <= '\u{200a}') || c == '\u{2028}' || c == '\u{2029}' || c
        == '\u{202f}' || c == '\u{205f}' || c == '\u{3000}'
}

/// Relies on unicode_bidi::BidiInfo::new, with no base level or with the
/// left-to-right one: a level per byte, and the paragraphs, which it cuts just
/// after each paragraph separator character and at the end, so that they cover
/// the text and lie on character boundaries. A given base level is every
/// paragraph's level.
#[verifier::external_body]
fn bidi_analyze(text: &str, forced_ltr: bool) -> (r: (Vec<u8>, Vec<(usize, usize, u8)>))
    ensures
        (r.0@, r.1@) == bidi_analysis_of(text.spec_bytes(), forced_ltr),
        r.0@.len() == text.spec_bytes().len(),
        partitions(r.1@, text.spec_bytes().len() as int),
        on_char_boundaries(r.1@, text.spec_bytes()),
        forced_ltr ==> forall|i: int| 0 <= i < r.1@.len() ==> (#[trigger] r.1@[i]).2 == 0,
{
    let info = unicode_bidi::BidiInfo::new(text, forced_ltr.then_some(unicode_bidi::LTR_LEVEL));
    (
        info.levels.iter().map(|l| l.number()).collect(),
        info.paragraphs.iter().map(|p| (p.range.start, p.range.end, p.level.number())).collect(),
    )
}

/// Relies on unicode_bidi::BidiInfo::visual_runs for one line of a paragraph:
/// the levels of all bytes, with those of the line adjusted, and the line's
/// runs of equal level in screen order. The line must end on a character
/// boundary, since the line is sliced from the text. Where the paragraph's base
/// level and every level in the line are even, the adjusted levels stay even,
/// each reversal of runs at a level of 2k or more is undone by the one at
/// 2k - 1 or more, and the runs come in logical order.
#[verifier::external_body]
fn bidi_visual_runs(text: &str, forced_ltr: bool, para: usize, line_end: usize) -> (r: (
    Vec<u8>,
    Vec<(usize, usize)>,
))
    requires
        partitions(
            bidi_analysis_of(text.spec_bytes(), forced_ltr).1,
            text.spec_bytes().len() as int,
        ),
        para < bidi_analysis_of(text.spec_bytes(), forced_ltr).1.len(),
        bidi_analysis_of(text.spec_bytes(), forced_ltr).1[para as int].0 <= line_end,
        line_end <= bidi_analysis_of(text.spec_bytes(), forced_ltr).1[para as int].1,
        is_char_boundary(text.spec_bytes(), line_end as int),
    ensures
        (r.0@, r.1@) == visual_runs_of(text.spec_bytes(), forced_ltr, para as int, line_end as int),
        ({
            let (levels, paras) = bidi_analysis_of(text.spec_bytes(), forced_ltr);
            let p = paras[para as int];
            (p.2 % 2 == 0 && forall|i: int| p.0 <= i < line_end ==> levels[i] % 2 == 0)
                ==> in_logical_order(r.1@, p.0 as int, line_end as int)
        }),
{
    let info = unicode_bidi::BidiInfo::new(text, forced_ltr.then_some(unicode_bidi::LTR_LEVEL));
    let p = &info.paragraphs[para];
    let (levels, runs) = info.visual_runs(p, p.range.start..line_end);
    (
        levels.iter().map(|l| l.number()).collect(),
        runs.iter().map(|r| (r.start, r.end)).collect(),
    )
}

/// Relies on str::trim_end, which returns the text without its trailing white
/// space (characters with the White_Space property): a prefix of it.
#[verifier::external_body]
fn trim_end(s: &str) -> (r: &str)
    ensures
        r.spec_bytes() == trim_end_of(s.spec_bytes()),
        r.spec_bytes().len() <= s.spec_bytes().len(),
        r.spec_bytes() == s.spec_bytes().subrange(0, r.spec_bytes().len() as int),
        r@.len() <= s@.len(),
        r@ == s@.subrange(0, r@.len() as int),
        forall|i: int| r@.len() <= i < s@.len() ==> is_white_space(#[trigger] s@[i]),
        r@.len() > 0 ==> !is_white_space(r@.last()),
{
    s.trim_end()
}

/// A run of text with one direction, as a byte range.
#[derive(Clone, Copy, Debug, PartialEq, Eq, Structural)]
pub struct Run {
    pub start: usize,
    pub end: usize,
    pub rtl: bool,
}

/// One paragraph: its byte range, where its line ends once trailing white
/// space is dropped, and its visual runs in screen order.
#[derive(Debug)]
pub struct BidiLine {
    pub start: usize,
    pub end: usize,
    pub line_end: usize,
    pub runs: Vec<Run>,
}

/// The byte range `[start, end)` of `text` begins and ends on character boundaries.
pub open spec fn sliceable(text: Seq<u8>, start: int, end: int) -> bool {
    &&& 0 <= start <= end <= text.len()
    &&& is_char_boundary(text, start)
    &&& is_char_boundary(text.subrange(start, text.len() as int), end - start)
}

/// Some character is given an even (left-to-right) level.
pub open spec fn has_ltr_level(levels: Seq<u8>) -> bool {
    exists|i: int| 0 <= i < levels.len() && #[trigger] levels[i] % 2 == 0
}

/// The base level is forced to left-to-right for every paragraph as soon as
/// any character of the whole text resolves to a left-to-right level.
pub open spec fn forces_ltr(text: Seq<u8>) -> bool {
    has_ltr_level(bidi_analysis_of(text, false).0)
}

/// The paragraphs under the base-level policy.
pub open spec fn paragraphs_of(text: Seq<u8>) -> Seq<(usize, usize, u8)> {
    bidi_analysis_of(text, forces_ltr(text)).1
}

/// Where a paragraph's line ends: trailing white space is not laid out.
pub open spec fn line_end_of(text: Seq<u8>, p: (usize, usize, u8)) -> int {
    if sliceable(text, p.0 as int, p.1 as int) && is_char_boundary(
        text,
        p.0 + trim_end_of(text.subrange(p.0 as int, p.1 as int)).len(),
    ) {
        p.0 + trim_end_of(text.subrange(p.0 as int, p.1 as int)).len()
    } else {
        p.1 as int
    }
}

/// A visual run, with its direction read from the level of its first byte.
pub open spec fn run_of(levels: Seq<u8>, r: (usize, usize)) -> Run {
    Run { start: r.0, end: r.1, rtl: (r.0 as int) < levels.len() && levels[r.0 as int] % 2 == 1 }
}

/// The visual runs of paragraph `i`, in screen order.
pub open spec fn line_runs_of(text: Seq<u8>, i: int) -> Seq<Run> {
    let p = paragraphs_of(text)[i];
    let v = visual_runs_of(text, forces_ltr(text), i, line_end_of(text, p));
    v.1.map_values(|r: (usize, usize)| run_of(v.0, r))
}

/// The text's lines follow one another without gap or overlap, from byte 0 to
/// its end, and none is empty.
pub open spec fn lines_partition(lines: Seq<BidiLine>, len: int) -> bool {
    &&& (lines.len() == 0 <==> len == 0)
    &&& lines.len() > 0 ==> lines[0].start == 0 && lines.last().end == len
    &&& forall|i: int| 0 <= i < lines.len() ==> #[trigger] lines[i].start < lines[i].end
    &&& forall|i: int| 0 <= i < lines.len() - 1 ==> #[trigger] lines[i].end == lines[i + 1].start
}

/// The bytes `[start, end)` of `text`, where they lie on character boundaries.
pub fn slice(text: &str, start: usize, end: usize) -> (r: Option<&str>)
    ensures
        r.is_some() == sliceable(text.spec_bytes(), start as int, end as int),
        r matches Some(s) ==> s.spec_bytes() == text.spec_bytes().subrange(start as int, end as int),
{
    if start <= end && end <= text.as_bytes().len() && text.is_char_boundary(start) {
        let (_, rest) = text.split_at(start);
        assert(rest.spec_bytes() == text.spec_bytes().subrange(start as int, text.spec_bytes().len() as int));
        if rest.is_char_boundary(end - start) {
            let (mid, _) = rest.split_at(end - start);
            assert(mid.spec_bytes() =~= text.spec_bytes().subrange(start as int, end as int));
            Some(mid)
        } else {
            None
        }
    } else {
        None
    }
}

/// Whether some level is even.
pub fn any_ltr_level(levels: &Vec<u8>) -> (r: bool)
    ensures
        r == has_ltr_level(levels@),
{
    let mut i: usize = 0;
    while i < levels.len()
        invariant
            i <= levels@.len(),
            forall|j: int| 0 <= j < i ==> levels@[j] % 2 != 0,
        decreases levels@.len() - i,
    {
        if levels[i] % 2 == 0 {
            return true;
        }
        i += 1;
    }
    false
}

/// `line` is paragraph `i` of the text, with its visual runs.
pub open spec fn is_line_of(text: Seq<u8>, line: BidiLine, i: int) -> bool {
    let p = paragraphs_of(text)[i];
    &&& line.start == p.0
    &&& line.end == p.1
    &&& line.line_end == line_end_of(text, p)
    &&& line.runs@ == line_runs_of(text, i)
}

/// Where the paragraph's base level and the level of each byte of its line are
/// even (left-to-right), the line's runs come in logical order: from the
/// line's start, each where the one before ends, up to the line's end.
pub open spec fn ltr_line_in_logical_order(text: Seq<u8>, line: BidiLine, i: int) -> bool {
    let (levels, paras) = bidi_analysis_of(text, forces_ltr(text));
    (paras[i].2 % 2 == 0 && forall|k: int|
        line.start <= k < line.line_end ==> levels[k] % 2 == 0) ==> {
        let runs = line.runs@;
        &&& runs.len() > 0
        &&& runs[0].start == line.start
        &&& runs.last().end == line.line_end
        &&& forall|j: int| 0 <= j < runs.len() - 1 ==> #[trigger] runs[j].end == runs[j + 1].start
    }
}

/// The runs `found`, each with the direction of the level of its first byte:
/// right-to-left for an odd level.
pub fn runs_with_directions(levels: &Vec<u8>, found: &Vec<(usize, usize)>) -> (r: Vec<Run>)
    ensures
        r@ == found@.map_values(|x: (usize, usize)| run_of(levels@, x)),
{
    let mut runs: Vec<Run> = Vec::new();
    let mut k: usize = 0;
    while k < found.len()
        invariant
            k <= found@.len(),
            runs@.len() == k,
            forall|m: int| 0 <= m < k ==> #[trigger] runs@[m] == run_of(levels@, found@[m]),
        decreases found@.len() - k,
    {
        let (s, e) = found[k];
        let rtl = s < levels.len() && levels[s] % 2 == 1;
        runs.push(Run { start: s, end: e, rtl });
        k += 1;
    }
    assert(runs@ =~= found@.map_values(|x: (usize, usize)| run_of(levels@, x)));
    runs
}

/// Paragraph `i`, given the base-level policy's outcome `forced`.
fn paragraph_line(text: &str, forced: bool, paras: &Vec<(usize, usize, u8)>, i: usize) -> (r:
    BidiLine)
    requires
        forced == forces_ltr(text.spec_bytes()),
        paras@ == paragraphs_of(text.spec_bytes()),
        partitions(paras@, text.spec_bytes().len() as int),
        on_char_boundaries(paras@, text.spec_bytes()),
        bidi_analysis_of(text.spec_bytes(), forced).0.len() == text.spec_bytes().len(),
        i < paras@.len(),
    ensures
        is_line_of(text.spec_bytes(), r, i as int),
        ltr_line_in_logical_order(text.spec_bytes(), r, i as int),
{
    let (start, end, _) = paras[i];
    let line_end = match slice(text, start, end) {
        Some(source) => {
            let ts = trim_end(source);
            let e = start + ts.len();
            if text.is_char_boundary(e) {
                e
            } else {
                end
            }
        },
        None => end,
    };
    let (levels, found) = bidi_visual_runs(text, forced, i, line_end);
    let runs = runs_with_directions(&levels, &found);
    proof {
        if found@.len() > 0 {
            assert(runs@[0] == run_of(levels@, found@[0]));
            assert(runs@.last() == run_of(levels@, found@.last()));
        }
        assert forall|j: int|
            0 <= j < runs@.len() - 1 && in_logical_order(
                found@,
                start as int,
                line_end as int,
            ) implies #[trigger] runs@[j].end == runs@[j + 1].start by {
            assert(runs@[j] == run_of(levels@, found@[j]));
            assert(runs@[j + 1] == run_of(levels@, found@[j + 1]));
        }
    }
    BidiLine { start, end, line_end, runs }
}

/// Splits the text into paragraphs and each paragraph's line into visual runs
/// in screen order, each with its direction.
pub fn bidi_lines(text: &str) -> (r: Vec<BidiLine>)
    ensures
        r@.len() == paragraphs_of(text.spec_bytes()).len(),
        forall|i: int| 0 <= i < r@.len() ==> is_line_of(text.spec_bytes(), #[trigger] r@[i], i),
        lines_partition(r@, text.spec_bytes().len() as int),
        forall|i: int|
            0 <= i < r@.len() ==> ltr_line_in_logical_order(text.spec_bytes(), #[trigger] r@[i], i),
        forces_ltr(text.spec_bytes()) ==> forall|i: int|
            0 <= i < r@.len() ==> (#[trigger] paragraphs_of(text.spec_bytes())[i]).2 == 0,
{
    let (first_levels, _) = bidi_analyze(text, false);
    let forced = any_ltr_level(&first_levels);
    let (_, paras) = bidi_analyze(text, forced);
    let ghost bytes = text.spec_bytes();
    let mut lines: Vec<BidiLine> = Vec::new();
    let mut i: usize = 0;
    while i < paras.len()
        invariant
            forced == forces_ltr(bytes),
            bytes == text.spec_bytes(),
            paras@ == paragraphs_of(bytes),
            partitions(paras@, bytes.len() as int),
            on_char_boundaries(paras@, bytes),
            bidi_analysis_of(bytes, forced).0.len() == bytes.len(),
            i <= paras@.len(),
            lines@.len() == i,
            forall|j: int| 0 <= j < i ==> is_line_of(bytes, #[trigger] lines@[j], j),
            forall|j: int| 0 <= j < i ==> ltr_line_in_logical_order(bytes, #[trigger] lines@[j], j),
        decreases paras@.len() - i,
    {
        let line = paragraph_line(text, forced, &paras, i);
        lines.push(line);
        i += 1;
    }
    proof {
        if lines@.len() > 0 {
            assert(is_line_of(bytes, lines@[lines@.len() - 1], lines@.len() - 1));
            assert(is_line_of(bytes, lines@[0], 0));
        }
        assert forall|j: int| 0 <= j < lines@.len() implies #[trigger] lines@[j].start
            < lines@[j].end by {
            assert(is_line_of(bytes, lines@[j], j));
        }
        assert forall|j: int| 0 <= j < lines@.len() - 1 implies #[trigger] lines@[j].end
            == lines@[j + 1].start by {
            assert(is_line_of(bytes, lines@[j], j));
            assert(is_line_of(bytes, lines@[j + 1], j + 1));
        }
    }
    lines
}

} // verus!
