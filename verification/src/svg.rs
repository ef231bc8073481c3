//! SVG markup for strokes. Coordinates reach this module already written
//! out as text; sizes are derived here from the stroke's width. What is
//! decided here is which elements a stroke becomes, in which order, with
//! which sizes, and their markup.

use vstd::prelude::*;
use crate::pen::{PenKind, RenderStyle, spec_render_style};
use crate::size::{
    hundredths_text, spec_half, spec_hundredths, spec_neon_radii, spec_neon_widths, spec_width,
};

verus! {

/// A point whose coordinates are already written out as text.
pub type PointText = (String, String);

/// `x,y` for one point.
pub open spec fn spec_point(p: PointText) -> Seq<char> {
    p.0@ + ","@ + p.1@
}

/// `"x,y x,y …"`: the `points` attribute of a `<polyline>` or `<polygon>`.
pub open spec fn spec_points(pts: Seq<PointText>) -> Seq<char>
    decreases pts.len(),
{
    if pts.len() == 0 {
        Seq::empty()
    } else if pts.len() == 1 {
        spec_point(pts[0])
    } else {
        spec_points(pts.drop_last()) + " "@ + spec_point(pts.last())
    }
}

/// A filled circle.
pub open spec fn spec_circle(cx: Seq<char>, cy: Seq<char>, r: Seq<char>, fill: Seq<char>) -> Seq<
    char,
> {
    "<circle cx=\""@ + cx + "\" cy=\""@ + cy + "\" r=\""@ + r + "\" fill=\""@ + fill + "\"/>"@
}

/// An unfilled, stroked polyline through the given `points` text.
pub open spec fn spec_polyline(points: Seq<char>, stroke: Seq<char>, width: Seq<char>) -> Seq<char> {
    "<polyline points=\""@ + points + "\" fill=\"none\" stroke=\""@ + stroke
        + "\" stroke-width=\""@ + width + "\"/>"@
}

/// A filled polygon through the given `points` text.
pub open spec fn spec_polygon(points: Seq<char>, fill: Seq<char>) -> Seq<char> {
    "<polygon points=\""@ + points + "\" fill=\""@ + fill + "\"/>"@
}

/// A circle of radius `r` centred on point `p`.
pub open spec fn spec_dot(p: PointText, r: Seq<char>, fill: Seq<char>) -> Seq<char> {
    spec_circle(p.0@, p.1@, r, fill)
}

/// One dot of radius `r` at each point, in order.
pub open spec fn spec_dots(pts: Seq<PointText>, r: Seq<char>, fill: Seq<char>) -> Seq<char>
    decreases pts.len(),
{
    if pts.len() == 0 {
        Seq::empty()
    } else {
        spec_dots(pts.drop_last(), r, fill) + spec_dot(pts.last(), r, fill)
    }
}

/// One polyline per run, in order.
pub open spec fn spec_runs(runs: Seq<Vec<PointText>>, stroke: Seq<char>, width: Seq<char>) -> Seq<
    char,
>
    decreases runs.len(),
{
    if runs.len() == 0 {
        Seq::empty()
    } else {
        spec_runs(runs.drop_last(), stroke, width) + spec_polyline(
            spec_points(runs.last()@),
            stroke,
            width,
        )
    }
}

/// Writes `"x,y x,y …"` for the points, separated by single spaces.
pub fn poly_points(pts: &[PointText]) -> (s: String)
    ensures
        s@ == spec_points(pts@),
{
    let mut s = String::new();
    let n = pts.len();
    let mut i: usize = 0;
    while i < n
        invariant
            n == pts@.len(),
            i <= n,
            s@ == spec_points(pts@.take(i as int)),
        decreases n - i,
    {
        let ghost before = s@;
        if i > 0 {
            s.append(" ");
        }
        s.append(pts[i].0.as_str());
        s.append(",");
        s.append(pts[i].1.as_str());
        proof {
            let t = pts@.take(i + 1);
            assert(t.drop_last() =~= pts@.take(i as int));
            assert(t.last() == pts@[i as int]);
            if i == 0 {
                assert(s@ =~= spec_point(pts@[0]));
            } else {
                assert(s@ =~= before + " "@ + spec_point(pts@[i as int]));
            }
        }
        i = i + 1;
    }
    assert(pts@.take(n as int) =~= pts@);
    s
}

/// Appends a filled circle (used for dots and round caps and joins).
pub fn push_dot(body: &mut String, x: &str, y: &str, r: &str, fill: &str)
    ensures
        final(body)@ == old(body)@ + spec_circle(x@, y@, r@, fill@),
{
    body.append("<circle cx=\"");
    body.append(x);
    body.append("\" cy=\"");
    body.append(y);
    body.append("\" r=\"");
    body.append(r);
    body.append("\" fill=\"");
    body.append(fill);
    body.append("\"/>");
    assert(body@ =~= old(body)@ + spec_circle(x@, y@, r@, fill@));
}

/// Appends an unfilled polyline with the given `points` text.
fn push_polyline(body: &mut String, points: &str, stroke: &str, width: &str)
    ensures
        final(body)@ == old(body)@ + spec_polyline(points@, stroke@, width@),
{
    body.append("<polyline points=\"");
    body.append(points);
    body.append("\" fill=\"none\" stroke=\"");
    body.append(stroke);
    body.append("\" stroke-width=\"");
    body.append(width);
    body.append("\"/>");
    assert(body@ =~= old(body)@ + spec_polyline(points@, stroke@, width@));
}

/// Appends one dot of radius `r` at each point.
fn push_dots(body: &mut String, pts: &[PointText], r: &str, fill: &str)
    ensures
        final(body)@ == old(body)@ + spec_dots(pts@, r@, fill@),
{
    let n = pts.len();
    let mut i: usize = 0;
    while i < n
        invariant
            n == pts@.len(),
            i <= n,
            body@ == old(body)@ + spec_dots(pts@.take(i as int), r@, fill@),
        decreases n - i,
    {
        push_dot(body, pts[i].0.as_str(), pts[i].1.as_str(), r, fill);
        proof {
            let t = pts@.take(i + 1);
            assert(t.drop_last() =~= pts@.take(i as int));
            assert(t.last() == pts@[i as int]);
        }
        i = i + 1;
    }
    assert(pts@.take(n as int) =~= pts@);
}

/// The width of a stroke of width `w` tenths, as written in the markup.
pub open spec fn width_text(w: u32) -> Seq<char> {
    spec_hundredths(spec_width(w))
}

/// The radius of the dots of a stroke of width `w` tenths (half its width).
pub open spec fn radius_text(w: u32) -> Seq<char> {
    spec_hundredths(spec_half(w))
}

/// What a plain solid stroke becomes: nothing for no points, one dot for a
/// single point, otherwise a polyline followed by round joins (a dot at
/// every vertex) or, without joins, round caps (a dot at each end) when
/// asked for. The compiler only does butt caps and miter joins, so round
/// ones are made of circles.
pub open spec fn spec_solid(
    pts: Seq<PointText>,
    color: Seq<char>,
    w: u32,
    caps: bool,
    joins: bool,
) -> Seq<char> {
    if pts.len() == 0 {
        Seq::empty()
    } else if pts.len() == 1 {
        spec_dot(pts[0], radius_text(w), color)
    } else {
        spec_polyline(spec_points(pts), color, width_text(w)) + if joins {
            spec_dots(pts, radius_text(w), color)
        } else if caps {
            spec_dot(pts[0], radius_text(w), color) + spec_dot(pts.last(), radius_text(w), color)
        } else {
            Seq::empty()
        }
    }
}

/// A line of at least two points whose first and last points are replaced
/// by the given ones.
pub open spec fn spec_capped(pts: Seq<PointText>, start: PointText, end: PointText) -> Seq<
    PointText,
> {
    seq![start] + pts.subrange(1, pts.len() - 1) + seq![end]
}

/// What a highlighter stroke becomes, wrapped in a group of opacity 0.4 so
/// its translucency composites once: nothing for no points, one dot for a
/// single point, otherwise a polyline whose ends are moved out to `start`
/// and `end` (half a width past the first and last point) so that its butt
/// ends make a square cap.
pub open spec fn spec_highlighter(
    pts: Seq<PointText>,
    start: PointText,
    end: PointText,
    color: Seq<char>,
    w: u32,
) -> Seq<char> {
    "<g opacity=\"0.4\">"@ + if pts.len() == 0 {
        Seq::<char>::empty()
    } else if pts.len() == 1 {
        spec_dot(pts[0], radius_text(w), color)
    } else {
        spec_polyline(spec_points(spec_capped(pts, start, end)), color, width_text(w))
    } + "</g>"@
}

/// What a dashed stroke becomes: nothing for no points, one dot for a single
/// point, otherwise one polyline per pen-down run of the dash pattern.
pub open spec fn spec_dashed(
    pts: Seq<PointText>,
    runs: Seq<Vec<PointText>>,
    color: Seq<char>,
    w: u32,
) -> Seq<char> {
    if pts.len() == 0 {
        Seq::empty()
    } else if pts.len() == 1 {
        spec_dot(pts[0], radius_text(w), color)
    } else {
        spec_runs(runs, color, width_text(w))
    }
}

/// What a neon stroke becomes: a translucent halo (grouped, so it does not
/// darken itself) under the coloured shape, topped by a near-white core.
/// A single point: halo dot of 1.2 widths, dot of half a width, core dot of
/// 0.2 widths. A line: halo 2.4 widths wide, the line, core 0.4 widths wide.
pub open spec fn spec_neon(pts: Seq<PointText>, color: Seq<char>, w: u32) -> Seq<char> {
    if pts.len() == 0 {
        Seq::empty()
    } else if pts.len() == 1 {
        "<g opacity=\"0.5\">"@ + spec_dot(pts[0], spec_hundredths(spec_neon_radii(w).0), color)
            + "</g>"@ + spec_dot(pts[0], radius_text(w), color) + spec_dot(
            pts[0],
            spec_hundredths(spec_neon_radii(w).1),
            "#ffffff"@,
        )
    } else {
        "<g opacity=\"0.5\">"@ + spec_polyline(
            spec_points(pts),
            color,
            spec_hundredths(spec_neon_widths(w).0),
        ) + "</g>"@ + spec_polyline(spec_points(pts), color, width_text(w)) + spec_polyline(
            spec_points(pts),
            "#ffffff"@,
            spec_hundredths(spec_neon_widths(w).1),
        )
    }
}

/// What a calligraphy stroke becomes: for fewer than two points a dot at the
/// first point if there is one; otherwise the ribbon outline as one filled polygon.
pub open spec fn spec_calligraphy(
    pts: Seq<PointText>,
    ring: Seq<PointText>,
    color: Seq<char>,
    w: u32,
) -> Seq<char> {
    if pts.len() < 2 {
        if pts.len() == 1 {
            spec_dot(pts[0], radius_text(w), color)
        } else {
            Seq::empty()
        }
    } else {
        spec_polygon(spec_points(ring), color)
    }
}

/// The geometry of one stroke written out as text: its points, and what
/// the stroke's kind derives from them (the dash runs, the dot positions,
/// the ribbon outline, the moved ends of a square-capped line). A kind
/// reads only the parts it uses.
pub struct StrokeText {
    pub points: Vec<PointText>,
    pub runs: Vec<Vec<PointText>>,
    pub dots: Vec<PointText>,
    pub ring: Vec<PointText>,
    pub start_cap: PointText,
    pub end_cap: PointText,
}

/// What a stroke of kind `kind`, colour `color` and width `w` tenths becomes.
pub open spec fn spec_render(kind: PenKind, color: Seq<char>, w: u32, g: StrokeText) -> Seq<char> {
    match spec_render_style(kind) {
        RenderStyle::Solid { caps, joins } => spec_solid(g.points@, color, w, caps, joins),
        RenderStyle::Highlight => spec_highlighter(g.points@, g.start_cap, g.end_cap, color, w),
        RenderStyle::Dashed => spec_dashed(g.points@, g.runs@, color, w),
        RenderStyle::Dotted => spec_dots(g.dots@, radius_text(w), color),
        RenderStyle::Neon => spec_neon(g.points@, color, w),
        RenderStyle::Calligraphy => spec_calligraphy(g.points@, g.ring@, color, w),
        RenderStyle::Nothing => Seq::empty(),
    }
}

/// The whole document: the body inside an `<svg>` whose view box is `w` by `h`.
pub open spec fn spec_document(w: Seq<char>, h: Seq<char>, body: Seq<char>) -> Seq<char> {
    "<svg viewBox=\"0 0 "@ + w + " "@ + h + "\">"@ + body + "</svg>"@
}

/// A plain solid polyline of width `w` tenths. Round joins (`joins`) add a
/// dot at every vertex; round caps alone (`caps`) add a dot at each end
/// (the compiler only does butt caps and miter joins).
pub fn solid_poly(
    body: &mut String,
    pts: &[PointText],
    color: &str,
    w: u32,
    caps: bool,
    joins: bool,
)
    ensures
        final(body)@ == old(body)@ + spec_solid(pts@, color@, w, caps, joins),
{
    let radius = hundredths_text(5 * (w as u64));
    if pts.len() == 0 {
        assert(body@ =~= old(body)@ + spec_solid(pts@, color@, w, caps, joins));
    } else if pts.len() == 1 {
        push_dot(body, pts[0].0.as_str(), pts[0].1.as_str(), radius.as_str(), color);
    } else {
        let width = hundredths_text(10 * (w as u64));
        let line = poly_points(pts);
        push_polyline(body, line.as_str(), color, width.as_str());
        let n = pts.len();
        if joins {
            push_dots(body, pts, radius.as_str(), color);
        } else if caps {
            push_dot(body, pts[0].0.as_str(), pts[0].1.as_str(), radius.as_str(), color);
            push_dot(body, pts[n - 1].0.as_str(), pts[n - 1].1.as_str(), radius.as_str(), color);
        }
        assert(body@ =~= old(body)@ + spec_solid(pts@, color@, w, caps, joins));
    }
}

/// A copy of a point's text.
fn copy_point(p: &PointText) -> (r: PointText)
    ensures
        r == *p,
{
    (p.0.clone(), p.1.clone())
}

/// The line with its first and last point replaced by `start` and `end`.
fn capped_line(pts: &[PointText], start: &PointText, end: &PointText) -> (r: Vec<PointText>)
    requires
        pts@.len() >= 2,
    ensures
        r@ == spec_capped(pts@, *start, *end),
{
    let n = pts.len();
    let mut r: Vec<PointText> = Vec::new();
    r.push(copy_point(start));
    let mut i: usize = 1;
    while i < n - 1
        invariant
            n == pts@.len(),
            n >= 2,
            1 <= i <= n - 1,
            r@ == seq![*start] + pts@.subrange(1, i as int),
        decreases n - i,
    {
        r.push(copy_point(&pts[i]));
        assert(pts@.subrange(1, i + 1) =~= pts@.subrange(1, i as int).push(pts@[i as int]));
        i = i + 1;
    }
    r.push(copy_point(end));
    assert(r@ =~= spec_capped(pts@, *start, *end));
    r
}

/// Highlighter: a wide square-capped stroke, wrapped in a group so its
/// translucency composites once (no darkened overlaps). The square cap is
/// the line's butt end moved half a width out: `start` and `end` are the
/// first and last point moved so.
pub fn highlighter(
    body: &mut String,
    pts: &[PointText],
    start: &PointText,
    end: &PointText,
    color: &str,
    w: u32,
)
    ensures
        final(body)@ == old(body)@ + spec_highlighter(pts@, *start, *end, color@, w),
{
    body.append("<g opacity=\"0.4\">");
    let ghost mid = body@;
    if pts.len() == 1 {
        let radius = hundredths_text(5 * (w as u64));
        push_dot(body, pts[0].0.as_str(), pts[0].1.as_str(), radius.as_str(), color);
    } else if pts.len() >= 2 {
        let width = hundredths_text(10 * (w as u64));
        let line = capped_line(pts, start, end);
        let text = poly_points(line.as_slice());
        push_polyline(body, text.as_str(), color, width.as_str());
    }
    body.append("</g>");
    assert(body@ =~= old(body)@ + spec_highlighter(pts@, *start, *end, color@, w));
}

/// Dashed line: each pen-down run becomes its own polyline.
pub fn dashed(body: &mut String, pts: &[PointText], runs: &[Vec<PointText>], color: &str, w: u32)
    ensures
        final(body)@ == old(body)@ + spec_dashed(pts@, runs@, color@, w),
{
    if pts.len() == 0 {
        assert(body@ =~= old(body)@ + spec_dashed(pts@, runs@, color@, w));
    } else if pts.len() == 1 {
        let radius = hundredths_text(5 * (w as u64));
        push_dot(body, pts[0].0.as_str(), pts[0].1.as_str(), radius.as_str(), color);
    } else {
        let width = hundredths_text(10 * (w as u64));
        let n = runs.len();
        let mut i: usize = 0;
        while i < n
            invariant
                n == runs@.len(),
                i <= n,
                width@ == width_text(w),
                body@ == old(body)@ + spec_runs(runs@.take(i as int), color@, width_text(w)),
            decreases n - i,
        {
            let line = poly_points(runs[i].as_slice());
            push_polyline(body, line.as_str(), color, width.as_str());
            proof {
                let t = runs@.take(i + 1);
                assert(t.drop_last() =~= runs@.take(i as int));
                assert(t.last() == runs@[i as int]);
            }
            i = i + 1;
        }
        assert(runs@.take(n as int) =~= runs@);
    }
}

/// Dotted line: round dots of half a width at the given positions.
pub fn dotted(body: &mut String, dots: &[PointText], color: &str, w: u32)
    ensures
        final(body)@ == old(body)@ + spec_dots(dots@, radius_text(w), color@),
{
    let radius = hundredths_text(5 * (w as u64));
    push_dots(body, dots, radius.as_str(), color);
}

/// Neon: a wide translucent halo (grouped, so it does not self-darken)
/// under the coloured line, topped by a thin near-white core.
pub fn neon(body: &mut String, pts: &[PointText], color: &str, w: u32)
    ensures
        final(body)@ == old(body)@ + spec_neon(pts@, color@, w),
{
    let w64 = w as u64;
    if pts.len() == 0 {
        assert(body@ =~= old(body)@ + spec_neon(pts@, color@, w));
    } else if pts.len() == 1 {
        let x = pts[0].0.as_str();
        let y = pts[0].1.as_str();
        let halo = hundredths_text(12 * w64);
        let radius = hundredths_text(5 * w64);
        let core = hundredths_text(2 * w64);
        body.append("<g opacity=\"0.5\">");
        push_dot(body, x, y, halo.as_str(), color);
        body.append("</g>");
        push_dot(body, x, y, radius.as_str(), color);
        push_dot(body, x, y, core.as_str(), "#ffffff");
        assert(body@ =~= old(body)@ + spec_neon(pts@, color@, w));
    } else {
        let halo = hundredths_text(24 * w64);
        let width = hundredths_text(10 * w64);
        let core = hundredths_text(4 * w64);
        let line = poly_points(pts);
        body.append("<g opacity=\"0.5\">");
        push_polyline(body, line.as_str(), color, halo.as_str());
        body.append("</g>");
        push_polyline(body, line.as_str(), color, width.as_str());
        push_polyline(body, line.as_str(), "#ffffff", core.as_str());
        assert(body@ =~= old(body)@ + spec_neon(pts@, color@, w));
    }
}

/// Calligraphy: the ribbon outline `ring` (left side, then right side
/// reversed) as one filled polygon; a single point is a dot.
pub fn calligraphy(body: &mut String, pts: &[PointText], ring: &[PointText], color: &str, w: u32)
    ensures
        final(body)@ == old(body)@ + spec_calligraphy(pts@, ring@, color@, w),
{
    if pts.len() < 2 {
        if pts.len() == 1 {
            let radius = hundredths_text(5 * (w as u64));
            push_dot(body, pts[0].0.as_str(), pts[0].1.as_str(), radius.as_str(), color);
        } else {
            assert(body@ =~= old(body)@ + spec_calligraphy(pts@, ring@, color@, w));
        }
    } else {
        let line = poly_points(ring);
        body.append("<polygon points=\"");
        body.append(line.as_str());
        body.append("\" fill=\"");
        body.append(color);
        body.append("\"/>");
        assert(body@ =~= old(body)@ + spec_calligraphy(pts@, ring@, color@, w));
    }
}

/// Draws one stroke of kind `kind`, colour `color` and width `w` tenths
/// with the renderer of its kind; the eraser draws nothing.
pub fn render_stroke(body: &mut String, kind: PenKind, color: &str, w: u32, g: &StrokeText)
    ensures
        final(body)@ == old(body)@ + spec_render(kind, color@, w, *g),
{
    match kind.render_style() {
        RenderStyle::Solid { caps, joins } => solid_poly(
            body,
            g.points.as_slice(),
            color,
            w,
            caps,
            joins,
        ),
        RenderStyle::Highlight => highlighter(
            body,
            g.points.as_slice(),
            &g.start_cap,
            &g.end_cap,
            color,
            w,
        ),
        RenderStyle::Dashed => dashed(body, g.points.as_slice(), g.runs.as_slice(), color, w),
        RenderStyle::Dotted => dotted(body, g.dots.as_slice(), color, w),
        RenderStyle::Neon => neon(body, g.points.as_slice(), color, w),
        RenderStyle::Calligraphy => calligraphy(
            body,
            g.points.as_slice(),
            g.ring.as_slice(),
            color,
            w,
        ),
        RenderStyle::Nothing => {
            assert(body@ =~= old(body)@ + spec_render(kind, color@, w, *g));
        },
    }
}

/// The `points` text of two non-empty runs of points one after the other is
/// the text of the first, a single space, and the text of the second; a
/// single point is written `x,y`.
pub proof fn lemma_points_join(a: Seq<PointText>, b: Seq<PointText>)
    requires
        a.len() > 0,
        b.len() > 0,
    ensures
        spec_points(a + b) == spec_points(a) + " "@ + spec_points(b),
        forall|p: PointText| spec_points(seq![p]) == p.0@ + ","@ + p.1@,
    decreases b.len(),
{
    if b.len() == 1 {
        assert((a + b).drop_last() =~= a);
        assert((a + b).last() == b[0]);
    } else {
        lemma_points_join(a, b.drop_last());
        assert((a + b).drop_last() =~= a + b.drop_last());
        assert((a + b).last() == b.last());
        assert(spec_points(a + b) =~= spec_points(a) + " "@ + spec_points(b));
    }
}

/// Dots over a sequence split in two are the dots over the first part
/// followed by the dots over the second, and a single point gives a single
/// circle: together, one circle per point, the i-th centred on point i.
pub proof fn lemma_dots_one_per_point(a: Seq<PointText>, b: Seq<PointText>, r: Seq<char>, fill: Seq<char>)
    ensures
        spec_dots(a + b, r, fill) == spec_dots(a, r, fill) + spec_dots(b, r, fill),
        forall|p: PointText| spec_dots(seq![p], r, fill) == spec_circle(p.0@, p.1@, r, fill),
        spec_dots(Seq::<PointText>::empty(), r, fill) == Seq::<char>::empty(),
    decreases b.len(),
{
    assert forall|p: PointText| spec_dots(seq![p], r, fill) == spec_circle(p.0@, p.1@, r, fill) by {
        assert(seq![p].drop_last() =~= Seq::<PointText>::empty());
        assert(spec_dots(Seq::<PointText>::empty(), r, fill) =~= Seq::<char>::empty());
        assert(spec_dots(seq![p], r, fill) =~= spec_circle(p.0@, p.1@, r, fill));
    }
    if b.len() == 0 {
        assert(a + b =~= a);
        assert(spec_dots(a + b, r, fill) =~= spec_dots(a, r, fill) + spec_dots(b, r, fill));
    } else {
        lemma_dots_one_per_point(a, b.drop_last(), r, fill);
        assert((a + b).drop_last() =~= a + b.drop_last());
        assert((a + b).last() == b.last());
        assert(spec_dots(a + b, r, fill) =~= spec_dots(a, r, fill) + spec_dots(b, r, fill));
    }
}

/// For a line of two or more points: round joins add, after the bare
/// polyline, one dot of half the width at every vertex (whether or not caps
/// are asked for); round caps alone add one dot at the first point and one
/// at the last; without either the line is the bare polyline of the stroke's
/// width through the points in order.
pub proof fn lemma_solid_caps_and_joins(pts: Seq<PointText>, color: Seq<char>, w: u32, caps: bool)
    requires
        pts.len() >= 2,
    ensures
        spec_solid(pts, color, w, false, false) == spec_polyline(
            spec_points(pts),
            color,
            width_text(w),
        ),
        spec_solid(pts, color, w, caps, true) == spec_solid(pts, color, w, false, false)
            + spec_dots(pts, radius_text(w), color),
        spec_solid(pts, color, w, true, false) == spec_solid(pts, color, w, false, false)
            + spec_circle(pts[0].0@, pts[0].1@, radius_text(w), color) + spec_circle(
            pts[pts.len() - 1].0@,
            pts[pts.len() - 1].1@,
            radius_text(w),
            color,
        ),
{
    assert(spec_solid(pts, color, w, false, false) =~= spec_polyline(
        spec_points(pts),
        color,
        width_text(w),
    ));
    assert(spec_solid(pts, color, w, caps, true) =~= spec_solid(pts, color, w, false, false)
        + spec_dots(pts, radius_text(w), color));
    assert(spec_solid(pts, color, w, true, false) =~= spec_solid(pts, color, w, false, false)
        + spec_circle(pts[0].0@, pts[0].1@, radius_text(w), color) + spec_circle(
        pts[pts.len() - 1].0@,
        pts[pts.len() - 1].1@,
        radius_text(w),
        color,
    ));
}

/// A highlighter line of two or more points goes through the stroke's
/// points in touch order with only its first and last point replaced by the
/// moved ends; with unmoved ends, the highlighter is exactly a bare solid
/// line of the same width (or the same dot) inside the translucent group.
pub proof fn lemma_highlighter_line(
    pts: Seq<PointText>,
    start: PointText,
    end: PointText,
    color: Seq<char>,
    w: u32,
)
    ensures
        pts.len() >= 2 ==> spec_highlighter(pts, start, end, color, w) == "<g opacity=\"0.4\">"@
            + spec_polyline(
            spec_points(pts.update(0, start).update(pts.len() - 1, end)),
            color,
            width_text(w),
        ) + "</g>"@,
        pts.len() >= 1 ==> spec_highlighter(pts, pts[0], pts[pts.len() - 1], color, w)
            == "<g opacity=\"0.4\">"@ + spec_solid(pts, color, w, false, false) + "</g>"@,
        spec_highlighter(Seq::empty(), start, end, color, w) == "<g opacity=\"0.4\">"@
            + "</g>"@,
{
    if pts.len() >= 2 {
        assert(spec_capped(pts, start, end) =~= pts.update(0, start).update(pts.len() - 1, end));
        assert(spec_capped(pts, pts[0], pts[pts.len() - 1]) =~= pts);
        assert(spec_highlighter(pts, pts[0], pts[pts.len() - 1], color, w) =~= "<g opacity=\"0.4\">"@
            + spec_solid(pts, color, w, false, false) + "</g>"@);
    } else if pts.len() == 1 {
        assert(spec_highlighter(pts, pts[0], pts[pts.len() - 1], color, w) =~= "<g opacity=\"0.4\">"@
            + spec_solid(pts, color, w, false, false) + "</g>"@);
    }
    assert(spec_highlighter(Seq::empty(), start, end, color, w) =~= "<g opacity=\"0.4\">"@
        + "</g>"@);
}

/// A dotted stroke is drawn from its dot positions alone, whatever its touch
/// points: no dot positions draw nothing, and one more dot position adds one
/// circle of half the width centred on it, after the others.
pub proof fn lemma_dotted_draws_dot_positions(
    g1: StrokeText,
    g2: StrokeText,
    d: PointText,
    color: Seq<char>,
    w: u32,
)
    ensures
        g1.dots@ == g2.dots@ ==> spec_render(PenKind::Dotted, color, w, g1) == spec_render(
            PenKind::Dotted,
            color,
            w,
            g2,
        ),
        g1.dots@.len() == 0 ==> spec_render(PenKind::Dotted, color, w, g1) == Seq::<char>::empty(),
        g2.dots@ == g1.dots@.push(d) ==> spec_render(PenKind::Dotted, color, w, g2) == spec_render(
            PenKind::Dotted,
            color,
            w,
            g1,
        ) + spec_circle(d.0@, d.1@, radius_text(w), color),
{
    if g2.dots@ == g1.dots@.push(d) {
        assert(g2.dots@.drop_last() =~= g1.dots@);
    }
    if g1.dots@.len() == 0 {
        assert(spec_dots(g1.dots@, radius_text(w), color) =~= Seq::<char>::empty());
    }
}

/// The full SVG document around an already rendered body.
pub fn svg_document(w: &str, h: &str, body: &str) -> (r: String)
    ensures
        r@ == spec_document(w@, h@, body@),
{
    let mut r = String::from_str("<svg viewBox=\"0 0 ");
    r.append(w);
    r.append(" ");
    r.append(h);
    r.append("\">");
    r.append(body);
    r.append("</svg>");
    assert(r@ =~= spec_document(w@, h@, body@));
    r
}

} // verus!
