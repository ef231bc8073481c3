//! The kinds of pen the user can draw with, and what each one renders as.

use vstd::prelude::*;

verus! {

/// The kinds of pen the user can draw with. Each kind fully determines
/// how a stroke is rendered; a stroke stores its kind so switching pens
/// never alters strokes that were already drawn.
#[derive(Clone, Copy, Debug, PartialEq, Eq, Structural)]
pub enum PenKind {
    /// Thin solid line, round cap (ballpoint).
    Ballpoint,
    /// Medium solid line, round cap (marker).
    Marker,
    /// Thick solid line, round cap and round join (brush).
    Brush,
    /// Thick, semi-transparent, square cap; drawn under the ink layer.
    Highlighter,
    /// Dashed line, the dashes made of geometry.
    Dashed,
    /// Dotted line: round dots spaced along the path.
    Dotted,
    /// Glow: a wide translucent halo under a thin bright core.
    Neon,
    /// Speed-driven thick/thin filled ribbon.
    Calligraphy,
    /// Not an ink at all: a mode that deletes strokes near the touch.
    Eraser,
}

/// The stable key of each kind.
pub open spec fn spec_id(k: PenKind) -> Seq<char> {
    match k {
        PenKind::Ballpoint => "ball"@,
        PenKind::Marker => "marker"@,
        PenKind::Brush => "brush"@,
        PenKind::Highlighter => "hl"@,
        PenKind::Dashed => "dash"@,
        PenKind::Dotted => "dot"@,
        PenKind::Neon => "neon"@,
        PenKind::Calligraphy => "calli"@,
        PenKind::Eraser => "erase"@,
    }
}

/// The label shown on each kind's selector button.
pub open spec fn spec_label(k: PenKind) -> Seq<char> {
    match k {
        PenKind::Ballpoint => "Pen"@,
        PenKind::Marker => "Marker"@,
        PenKind::Brush => "Brush"@,
        PenKind::Highlighter => "HiLite"@,
        PenKind::Dashed => "Dash"@,
        PenKind::Dotted => "Dot"@,
        PenKind::Neon => "Neon"@,
        PenKind::Calligraphy => "Calli"@,
        PenKind::Eraser => "Erase"@,
    }
}

/// The default stroke width of each kind, in tenths of a canvas unit.
pub open spec fn spec_width_tenths(k: PenKind) -> u32 {
    match k {
        PenKind::Ballpoint => 25,
        PenKind::Marker => 70,
        PenKind::Brush => 160,
        PenKind::Highlighter => 220,
        PenKind::Dashed => 40,
        PenKind::Dotted => 60,
        PenKind::Neon => 50,
        PenKind::Calligraphy => 110,
        PenKind::Eraser => 180,
    }
}

/// Whether strokes of a kind are drawn in the layer under the ink.
pub open spec fn spec_underlay(k: PenKind) -> bool {
    k == PenKind::Highlighter
}

/// The display order of the pen selector: every kind once, the eraser last.
pub open spec fn spec_pens() -> Seq<PenKind> {
    seq![
        PenKind::Ballpoint,
        PenKind::Marker,
        PenKind::Brush,
        PenKind::Highlighter,
        PenKind::Dashed,
        PenKind::Dotted,
        PenKind::Neon,
        PenKind::Calligraphy,
        PenKind::Eraser,
    ]
}

/// How a stroke of some kind is drawn.
#[derive(Clone, Copy, Debug, PartialEq, Eq, Structural)]
pub enum RenderStyle {
    /// A plain solid polyline, with round caps (`caps`) and round joins
    /// (`joins`) made of dots.
    Solid { caps: bool, joins: bool },
    /// A wide square-capped stroke inside a translucent group.
    Highlight,
    /// Each pen-down run of a dash pattern as its own polyline.
    Dashed,
    /// Round dots spaced along the path.
    Dotted,
    /// A translucent halo, the coloured line, and a thin white core.
    Neon,
    /// A filled ribbon of varying width.
    Calligraphy,
    /// Nothing at all (the eraser is a mode, never a stored stroke).
    Nothing,
}

/// The renderer each kind dispatches to.
pub open spec fn spec_render_style(k: PenKind) -> RenderStyle {
    match k {
        PenKind::Ballpoint | PenKind::Marker => RenderStyle::Solid { caps: true, joins: false },
        PenKind::Brush => RenderStyle::Solid { caps: true, joins: true },
        PenKind::Highlighter => RenderStyle::Highlight,
        PenKind::Dashed => RenderStyle::Dashed,
        PenKind::Dotted => RenderStyle::Dotted,
        PenKind::Neon => RenderStyle::Neon,
        PenKind::Calligraphy => RenderStyle::Calligraphy,
        PenKind::Eraser => RenderStyle::Nothing,
    }
}

impl PenKind {
    /// Stable key for list diffing and selection comparisons.
    pub fn id(self) -> (r: &'static str)
        ensures
            r@ == spec_id(self),
    {
        match self {
            PenKind::Ballpoint => "ball",
            PenKind::Marker => "marker",
            PenKind::Brush => "brush",
            PenKind::Highlighter => "hl",
            PenKind::Dashed => "dash",
            PenKind::Dotted => "dot",
            PenKind::Neon => "neon",
            PenKind::Calligraphy => "calli",
            PenKind::Eraser => "erase",
        }
    }

    /// Short label shown on the selector button.
    pub fn label(self) -> (r: &'static str)
        ensures
            r@ == spec_label(self),
    {
        match self {
            PenKind::Ballpoint => "Pen",
            PenKind::Marker => "Marker",
            PenKind::Brush => "Brush",
            PenKind::Highlighter => "HiLite",
            PenKind::Dashed => "Dash",
            PenKind::Dotted => "Dot",
            PenKind::Neon => "Neon",
            PenKind::Calligraphy => "Calli",
            PenKind::Eraser => "Erase",
        }
    }

    /// Default stroke width for the kind, in tenths of a canvas unit
    /// (canvas px / SVG user units): 25 stands for a width of 2.5.
    pub fn default_width_tenths(self) -> (r: u32)
        ensures
            r == spec_width_tenths(self),
    {
        match self {
            PenKind::Ballpoint => 25,
            PenKind::Marker => 70,
            PenKind::Brush => 160,
            PenKind::Highlighter => 220,
            PenKind::Dashed => 40,
            PenKind::Dotted => 60,
            PenKind::Neon => 50,
            PenKind::Calligraphy => 110,
            PenKind::Eraser => 180,
        }
    }

    /// Highlighter draws under every other stroke so it reads as a
    /// background wash rather than covering the ink.
    pub fn is_underlay(self) -> (r: bool)
        ensures
            r == spec_underlay(self),
    {
        matches!(self, PenKind::Highlighter)
    }

    /// Which renderer draws a stroke of this kind.
    pub fn render_style(self) -> (r: RenderStyle)
        ensures
            r == spec_render_style(self),
    {
        match self {
            PenKind::Ballpoint | PenKind::Marker => RenderStyle::Solid {
                caps: true,
                joins: false,
            },
            PenKind::Brush => RenderStyle::Solid { caps: true, joins: true },
            PenKind::Highlighter => RenderStyle::Highlight,
            PenKind::Dashed => RenderStyle::Dashed,
            PenKind::Dotted => RenderStyle::Dotted,
            PenKind::Neon => RenderStyle::Neon,
            PenKind::Calligraphy => RenderStyle::Calligraphy,
            PenKind::Eraser => RenderStyle::Nothing,
        }
    }
}

/// The pen selector, in display order.
pub fn pens() -> (r: Vec<PenKind>)
    ensures
        r@ == spec_pens(),
{
    vec![
        PenKind::Ballpoint,
        PenKind::Marker,
        PenKind::Brush,
        PenKind::Highlighter,
        PenKind::Dashed,
        PenKind::Dotted,
        PenKind::Neon,
        PenKind::Calligraphy,
        PenKind::Eraser,
    ]
}

/// The selector lists every kind exactly once, and the eraser sits last.
pub proof fn lemma_pens_list_each_kind_once(k: PenKind)
    ensures
        spec_pens().contains(k),
        forall|i: int, j: int|
            0 <= i < j < spec_pens().len() ==> spec_pens()[i] != spec_pens()[j],
        spec_pens().last() == PenKind::Eraser,
{
    let s = spec_pens();
    match k {
        PenKind::Ballpoint => assert(s[0] == k),
        PenKind::Marker => assert(s[1] == k),
        PenKind::Brush => assert(s[2] == k),
        PenKind::Highlighter => assert(s[3] == k),
        PenKind::Dashed => assert(s[4] == k),
        PenKind::Dotted => assert(s[5] == k),
        PenKind::Neon => assert(s[6] == k),
        PenKind::Calligraphy => assert(s[7] == k),
        PenKind::Eraser => assert(s[8] == k),
    }
}

/// Each kind has its own key: two kinds with the same key are the same kind.
pub proof fn lemma_ids_distinct(a: PenKind, b: PenKind)
    ensures
        spec_id(a) == spec_id(b) ==> a == b,
{
    reveal_strlit("ball");
    reveal_strlit("marker");
    reveal_strlit("brush");
    reveal_strlit("hl");
    reveal_strlit("dash");
    reveal_strlit("dot");
    reveal_strlit("neon");
    reveal_strlit("calli");
    reveal_strlit("erase");
    if spec_id(a) == spec_id(b) {
        assert(spec_id(a).len() == spec_id(b).len());
        assert(spec_id(a)[0] == spec_id(b)[0]);
        assert(spec_id(a)[1] == spec_id(b)[1]);
    }
}

} // verus!
