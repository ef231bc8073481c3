//! The drawing: completed strokes, the stroke being drawn, and the
//! selected colour and pen, with the transitions that touches and the
//! toolbar buttons cause. Points are carried through untouched, so the
//! point type is a parameter; hit testing and geometry happen elsewhere.

use vstd::prelude::*;
use crate::pen::{PenKind, spec_underlay, spec_width_tenths};
use crate::style::{default_color, spec_palette};
use crate::svg::{StrokeText, render_stroke, spec_document, spec_render, svg_document};

verus! {

/// A completed stroke. Carries everything needed to render it again
/// independently of the currently selected pen.
pub struct Stroke<P> {
    pub kind: PenKind,
    pub color: String,
    /// The stroke width in tenths of a canvas unit.
    pub width_tenths: u32,
    pub points: Vec<P>,
}

/// A stroke as a mathematical value.
pub struct StrokeView<P> {
    pub kind: PenKind,
    pub color: Seq<char>,
    pub width_tenths: u32,
    pub points: Seq<P>,
}

impl<P> View for Stroke<P> {
    type V = StrokeView<P>;

    open spec fn view(&self) -> StrokeView<P> {
        StrokeView {
            kind: self.kind,
            color: self.color@,
            width_tenths: self.width_tenths,
            points: self.points@,
        }
    }
}

/// The drawing state: completed strokes in draw order, the points of the
/// stroke in progress, and the selected colour and pen.
pub struct Drawing<P> {
    strokes: Vec<Stroke<P>>,
    current: Vec<P>,
    color: String,
    pen: PenKind,
}

/// The drawing state as a mathematical value.
pub struct DrawingView<P> {
    pub strokes: Seq<StrokeView<P>>,
    pub current: Seq<P>,
    pub color: Seq<char>,
    pub pen: PenKind,
}

/// The views of a sequence of strokes.
pub open spec fn stroke_views<P>(s: Seq<Stroke<P>>) -> Seq<StrokeView<P>> {
    s.map_values(|t: Stroke<P>| t@)
}

impl<P> View for Drawing<P> {
    type V = DrawingView<P>;

    closed spec fn view(&self) -> DrawingView<P> {
        DrawingView {
            strokes: stroke_views(self.strokes@),
            current: self.current@,
            color: self.color@,
            pen: self.pen,
        }
    }
}

/// A stored stroke is never an eraser stroke, has at least one point, has
/// the default width of its kind, and has a palette colour.
pub open spec fn stroke_ok<P>(s: StrokeView<P>) -> bool {
    &&& s.kind != PenKind::Eraser
    &&& s.points.len() > 0
    &&& s.width_tenths == spec_width_tenths(s.kind)
    &&& spec_palette().contains(s.color)
}

/// Every stored stroke is well formed, and the selected colour is a
/// palette colour.
pub open spec fn drawing_ok<P>(m: DrawingView<P>) -> bool {
    &&& forall|i: int| 0 <= i < m.strokes.len() ==> #[trigger] stroke_ok(m.strokes[i])
    &&& spec_palette().contains(m.color)
}

/// A fresh canvas: nothing drawn, the first palette colour, the ballpoint pen.
pub open spec fn spec_new<P>() -> DrawingView<P> {
    DrawingView {
        strokes: Seq::empty(),
        current: Seq::empty(),
        color: spec_palette()[0],
        pen: PenKind::Ballpoint,
    }
}

/// Choosing a colour changes only the selected colour.
pub open spec fn spec_select_color<P>(m: DrawingView<P>, c: Seq<char>) -> DrawingView<P> {
    DrawingView { color: c, ..m }
}

/// Choosing a pen changes only the selected pen.
pub open spec fn spec_select_pen<P>(m: DrawingView<P>, p: PenKind) -> DrawingView<P> {
    DrawingView { pen: p, ..m }
}

/// Undo drops the most recently completed stroke, if any.
pub open spec fn spec_undo<P>(m: DrawingView<P>) -> DrawingView<P> {
    if m.strokes.len() == 0 {
        m
    } else {
        DrawingView { strokes: m.strokes.drop_last(), ..m }
    }
}

/// Clear drops every stroke and the stroke in progress.
pub open spec fn spec_clear<P>(m: DrawingView<P>) -> DrawingView<P> {
    DrawingView { strokes: Seq::empty(), current: Seq::empty(), ..m }
}

/// A touch going down starts a new stroke at `pt`; with the eraser it
/// changes nothing here (the eraser deletes what it hits instead).
pub open spec fn spec_touch_start<P>(m: DrawingView<P>, pt: P) -> DrawingView<P> {
    if m.pen == PenKind::Eraser {
        m
    } else {
        DrawingView { current: seq![pt], ..m }
    }
}

/// A moving touch extends the stroke in progress; with the eraser it
/// changes nothing here.
pub open spec fn spec_touch_move<P>(m: DrawingView<P>, pt: P) -> DrawingView<P> {
    if m.pen == PenKind::Eraser {
        m
    } else {
        DrawingView { current: m.current.push(pt), ..m }
    }
}

/// Whether lifting the touch completes a stroke: the pen is an ink and
/// the stroke in progress has a point.
pub open spec fn spec_commits<P>(m: DrawingView<P>) -> bool {
    m.pen != PenKind::Eraser && m.current.len() > 0
}

/// The stroke that lifting the touch completes.
pub open spec fn spec_pending<P>(m: DrawingView<P>) -> StrokeView<P> {
    StrokeView {
        kind: m.pen,
        color: m.color,
        width_tenths: spec_width_tenths(m.pen),
        points: m.current,
    }
}

/// Lifting the touch appends the stroke in progress (if it commits) and
/// empties the stroke in progress.
pub open spec fn spec_touch_end<P>(m: DrawingView<P>) -> DrawingView<P> {
    DrawingView {
        strokes: if spec_commits(m) {
            m.strokes.push(spec_pending(m))
        } else {
            m.strokes
        },
        current: Seq::empty(),
        ..m
    }
}

/// The kind of the live preview of the stroke in progress: none when no
/// point has been drawn or the eraser is selected.
pub open spec fn spec_preview_kind<P>(m: DrawingView<P>) -> Option<PenKind> {
    if m.current.len() == 0 || m.pen == PenKind::Eraser {
        None
    } else {
        Some(m.pen)
    }
}

/// The elements of `s` whose flag in `hits` (same position) is false, in order.
pub open spec fn keep_unhit<A>(s: Seq<A>, hits: Seq<bool>) -> Seq<A>
    decreases s.len(),
{
    if s.len() == 0 {
        Seq::empty()
    } else {
        keep_unhit(s.drop_last(), hits) + if hits[s.len() - 1] {
            Seq::empty()
        } else {
            seq![s.last()]
        }
    }
}

/// The eraser deletes exactly the strokes it hits; the rest keep their order.
pub open spec fn spec_erase<P>(m: DrawingView<P>, hits: Seq<bool>) -> DrawingView<P> {
    DrawingView { strokes: keep_unhit(m.strokes, hits), ..m }
}

/// Keeping the unhit elements keeps no more elements than there are, and
/// keeps only elements of `s`.
pub proof fn lemma_keep_unhit_within<A>(s: Seq<A>, hits: Seq<bool>)
    ensures
        keep_unhit(s, hits).len() <= s.len(),
        forall|j: int|
            0 <= j < keep_unhit(s, hits).len() ==> exists|i: int|
                0 <= i < s.len() && !hits[i] && s[i] == #[trigger] keep_unhit(s, hits)[j],
    decreases s.len(),
{
    if s.len() > 0 {
        let t = s.drop_last();
        lemma_keep_unhit_within(t, hits);
        let k = keep_unhit(s, hits);
        assert forall|j: int| 0 <= j < k.len() implies exists|i: int|
            0 <= i < s.len() && !hits[i] && s[i] == #[trigger] k[j] by {
            if j < keep_unhit(t, hits).len() {
                let i = choose|i: int|
                    0 <= i < t.len() && !hits[i] && t[i] == #[trigger] keep_unhit(t, hits)[j];
                assert(s[i] == t[i]);
            } else {
                assert(k[j] == s[s.len() - 1]);
            }
        }
    }
}

/// Keeping the unhit elements commutes with taking views.
pub proof fn lemma_keep_unhit_views<P>(s: Seq<Stroke<P>>, hits: Seq<bool>)
    ensures
        stroke_views(keep_unhit(s, hits)) == keep_unhit(stroke_views(s), hits),
    decreases s.len(),
{
    if s.len() > 0 {
        lemma_keep_unhit_views(s.drop_last(), hits);
        assert(stroke_views(s).drop_last() =~= stroke_views(s.drop_last()));
        assert(stroke_views(keep_unhit(s, hits)) =~= keep_unhit(stroke_views(s), hits));
    } else {
        assert(stroke_views(keep_unhit(s, hits)) =~= keep_unhit(stroke_views(s), hits));
    }
}

/// One thing to render, in the order the document paints them.
#[derive(Clone, Copy, Debug, PartialEq, Eq, Structural)]
pub enum DrawItem {
    /// The completed stroke at this position.
    Stored(usize),
    /// The preview of the stroke in progress.
    Current,
}

/// The completed strokes of one layer (under the ink, or not), in draw order.
pub open spec fn spec_layer<P>(s: Seq<StrokeView<P>>, under: bool) -> Seq<DrawItem>
    decreases s.len(),
{
    if s.len() == 0 {
        Seq::empty()
    } else {
        spec_layer(s.drop_last(), under) + if spec_underlay(s.last().kind) == under {
            seq![DrawItem::Stored((s.len() - 1) as usize)]
        } else {
            Seq::empty()
        }
    }
}

/// The preview, if there is one and it belongs to the given layer.
pub open spec fn spec_current_in<P>(m: DrawingView<P>, under: bool) -> Seq<DrawItem> {
    match spec_preview_kind(m) {
        Some(k) => if spec_underlay(k) == under {
            seq![DrawItem::Current]
        } else {
            Seq::empty()
        },
        None => Seq::empty(),
    }
}

/// The paint order of the document: the underlay strokes, then the preview
/// if it is an underlay, then every other stroke, then the preview if it
/// is not an underlay.
pub open spec fn spec_draw_order<P>(m: DrawingView<P>) -> Seq<DrawItem> {
    spec_layer(m.strokes, true) + spec_current_in(m, true) + spec_layer(m.strokes, false)
        + spec_current_in(m, false)
}

/// The position of a stored stroke (and -1 for the preview).
pub open spec fn item_index(it: DrawItem) -> int {
    match it {
        DrawItem::Stored(i) => i as int,
        DrawItem::Current => -1,
    }
}

/// Whether an item is painted in the layer under the ink.
pub open spec fn item_under<P>(m: DrawingView<P>, it: DrawItem) -> bool {
    match it {
        DrawItem::Stored(i) => spec_underlay(m.strokes[i as int].kind),
        DrawItem::Current => spec_underlay(m.pen),
    }
}

/// A layer lists, in increasing position, exactly the strokes of that layer.
pub proof fn lemma_layer<P>(s: Seq<StrokeView<P>>, under: bool)
    requires
        s.len() <= usize::MAX + 1,
    ensures
        forall|j: int|
            #![trigger spec_layer(s, under)[j]]
            0 <= j < spec_layer(s, under).len() ==> {
                &&& spec_layer(s, under)[j] is Stored
                &&& 0 <= item_index(spec_layer(s, under)[j]) < s.len()
                &&& spec_underlay(s[item_index(spec_layer(s, under)[j])].kind) == under
            },
        forall|j1: int, j2: int|
            0 <= j1 < j2 < spec_layer(s, under).len() ==> item_index(spec_layer(s, under)[j1])
                < item_index(spec_layer(s, under)[j2]),
        forall|i: int|
            0 <= i < s.len() && spec_underlay(#[trigger] s[i].kind) == under ==> spec_layer(
                s,
                under,
            ).contains(DrawItem::Stored(i as usize)),
    decreases s.len(),
{
    if s.len() > 0 {
        let t = s.drop_last();
        lemma_layer(t, under);
        let l = spec_layer(s, under);
        let lt = spec_layer(t, under);
        assert forall|j: int| #![trigger l[j]] 0 <= j < l.len() implies {
            &&& l[j] is Stored
            &&& 0 <= item_index(l[j]) < s.len()
            &&& spec_underlay(s[item_index(l[j])].kind) == under
        } by {
            if j < lt.len() {
                assert(l[j] == lt[j]);
                assert(s[item_index(lt[j])] == t[item_index(lt[j])]);
            }
        }
        assert forall|j1: int, j2: int| 0 <= j1 < j2 < l.len() implies item_index(l[j1])
            < item_index(l[j2]) by {
            assert(l[j1] == lt[j1]);
            if j2 < lt.len() {
                assert(l[j2] == lt[j2]);
            } else {
                assert(0 <= item_index(lt[j1]) < t.len());
            }
        }
        assert forall|i: int|
            0 <= i < s.len() && spec_underlay(#[trigger] s[i].kind) == under implies l.contains(
            DrawItem::Stored(i as usize),
        ) by {
            if i < t.len() {
                assert(t[i] == s[i]);
                let j = choose|j: int| 0 <= j < lt.len() && lt[j] == DrawItem::Stored(i as usize);
                assert(l[j] == lt[j]);
            } else {
                assert(l[lt.len() as int] == DrawItem::Stored(i as usize));
            }
        }
    }
}

/// The paint order draws every completed stroke exactly once and nothing
/// else but the preview; all underlay items come before all other items;
/// within each layer, strokes keep the order in which they were drawn; and
/// the preview is drawn, once, exactly when there is one.
pub proof fn lemma_draw_order_layers<P>(m: DrawingView<P>)
    requires
        m.strokes.len() <= usize::MAX,
    ensures
        forall|i: int|
            0 <= i < m.strokes.len() ==> #[trigger] spec_draw_order(m).contains(
                DrawItem::Stored(i as usize),
            ),
        forall|j: int|
            #![trigger spec_draw_order(m)[j]]
            0 <= j < spec_draw_order(m).len() && spec_draw_order(m)[j] is Stored ==> 0
                <= item_index(spec_draw_order(m)[j]) < m.strokes.len(),
        forall|j1: int, j2: int|
            0 <= j1 < j2 < spec_draw_order(m).len() ==> spec_draw_order(m)[j1] != spec_draw_order(
                m,
            )[j2],
        forall|j1: int, j2: int|
            0 <= j1 < j2 < spec_draw_order(m).len() && item_under(m, spec_draw_order(m)[j2])
                ==> item_under(m, spec_draw_order(m)[j1]),
        forall|j1: int, j2: int|
            0 <= j1 < j2 < spec_draw_order(m).len() && spec_draw_order(m)[j1] is Stored
                && spec_draw_order(m)[j2] is Stored && item_under(m, spec_draw_order(m)[j1])
                == item_under(m, spec_draw_order(m)[j2]) ==> item_index(spec_draw_order(m)[j1])
                < item_index(spec_draw_order(m)[j2]),
        spec_draw_order(m).contains(DrawItem::Current) <==> spec_preview_kind(m) is Some,
{
    let o = spec_draw_order(m);
    let a = spec_layer(m.strokes, true);
    let b = spec_current_in(m, true);
    let c = spec_layer(m.strokes, false);
    let d = spec_current_in(m, false);
    lemma_layer(m.strokes, true);
    lemma_layer(m.strokes, false);
    assert(o =~= a + b + c + d);
    let la = a.len() as int;
    let lb = b.len() as int;
    let lc = c.len() as int;
    // Where each position of the order comes from.
    assert forall|j: int| 0 <= j < o.len() implies {
        &&& j < la ==> o[j] == a[j]
        &&& la <= j < la + lb ==> o[j] == b[j - la]
        &&& la + lb <= j < la + lb + lc ==> o[j] == c[j - la - lb]
        &&& la + lb + lc <= j ==> o[j] == d[j - la - lb - lc]
    } by {}
    // Every item: its layer, and whether it is stored.
    assert forall|j: int| 0 <= j < o.len() implies {
        &&& (o[j] is Stored ==> 0 <= item_index(o[j]) < m.strokes.len())
        &&& (item_under(m, o[j]) <==> j < la + lb)
        &&& (o[j] is Stored <==> (j < la || la + lb <= j < la + lb + lc))
    } by {
        if j < la {
            assert(o[j] == a[j]);
        } else if j < la + lb {
            assert(o[j] == b[j - la]);
        } else if j < la + lb + lc {
            assert(o[j] == c[j - la - lb]);
        } else {
            assert(o[j] == d[j - la - lb - lc]);
        }
    }
    assert forall|i: int| 0 <= i < m.strokes.len() implies #[trigger] o.contains(
        DrawItem::Stored(i as usize),
    ) by {
        if spec_underlay(m.strokes[i].kind) {
            let j = choose|j: int| 0 <= j < a.len() && a[j] == DrawItem::Stored(i as usize);
            assert(o[j] == a[j]);
        } else {
            let j = choose|j: int| 0 <= j < c.len() && c[j] == DrawItem::Stored(i as usize);
            assert(o[la + lb + j] == c[j]);
        }
    }
    assert forall|j1: int, j2: int|
        0 <= j1 < j2 < o.len() && o[j1] is Stored && o[j2] is Stored && item_under(m, o[j1])
            == item_under(m, o[j2]) implies item_index(o[j1]) < item_index(o[j2]) by {
        if j2 < la {
            assert(o[j1] == a[j1] && o[j2] == a[j2]);
        } else {
            assert(o[j1] == c[j1 - la - lb] && o[j2] == c[j2 - la - lb]);
        }
    }
    assert forall|j1: int, j2: int| 0 <= j1 < j2 < o.len() implies o[j1] != o[j2] by {
        if o[j1] is Stored && o[j2] is Stored {
            if item_under(m, o[j1]) == item_under(m, o[j2]) {
            } else {
                assert(item_index(o[j1]) != item_index(o[j2]));
            }
        } else if o[j1] == DrawItem::Current && o[j2] == DrawItem::Current {
            assert(la <= j1 < la + lb || la + lb + lc <= j1);
            assert(la <= j2 < la + lb || la + lb + lc <= j2);
            if la <= j1 < la + lb && la + lb + lc <= j2 {
                assert(b[j1 - la] == DrawItem::Current);
                assert(d[j2 - la - lb - lc] == DrawItem::Current);
            }
        }
    }
    if spec_preview_kind(m) is Some {
        if spec_underlay(m.pen) {
            assert(o[la] == DrawItem::Current);
        } else {
            assert(o[la + lb + lc] == DrawItem::Current);
        }
    } else {
        assert(b.len() == 0 && d.len() == 0);
        assert forall|j: int| 0 <= j < o.len() implies o[j] != DrawItem::Current by {}
    }
}

/// Undo right after lifting a touch that completed a stroke gives back the
/// strokes there were before that stroke.
pub proof fn lemma_undo_reverts_commit<P>(m: DrawingView<P>)
    requires
        spec_commits(m),
    ensures
        spec_undo(spec_touch_end(m)).strokes == m.strokes,
        spec_touch_end(m).strokes.last() == spec_pending(m),
{
    assert(spec_touch_end(m).strokes.drop_last() =~= m.strokes);
}

/// Choosing a pen or a colour never alters the strokes already drawn, nor
/// the stroke in progress.
pub proof fn lemma_toolbar_keeps_strokes<P>(m: DrawingView<P>, p: PenKind, c: Seq<char>)
    ensures
        spec_select_pen(m, p).strokes == m.strokes,
        spec_select_pen(m, p).current == m.current,
        spec_select_color(m, c).strokes == m.strokes,
        spec_select_color(m, c).current == m.current,
{
}

/// With the eraser selected, touches never start, extend or store a stroke.
pub proof fn lemma_eraser_draws_nothing<P>(m: DrawingView<P>, pt: P)
    requires
        m.pen == PenKind::Eraser,
    ensures
        spec_touch_start(m, pt) == m,
        spec_touch_move(m, pt) == m,
        spec_touch_end(m).strokes == m.strokes,
        spec_preview_kind(m) is None,
{
}

/// The preview shows exactly the stroke that lifting the touch would store:
/// there is a preview if and only if the lift stores a stroke, and it has
/// that stroke's kind.
pub proof fn lemma_preview_is_pending<P>(m: DrawingView<P>)
    ensures
        spec_preview_kind(m) is Some <==> spec_commits(m),
        spec_commits(m) ==> spec_preview_kind(m) == Some(spec_pending(m).kind),
{
}

/// An eraser touch that hits nothing leaves the strokes as they are.
pub proof fn lemma_erase_nothing_hit<P>(m: DrawingView<P>, hits: Seq<bool>)
    requires
        hits.len() == m.strokes.len(),
        forall|i: int| 0 <= i < hits.len() ==> !#[trigger] hits[i],
    ensures
        spec_erase(m, hits) == m,
{
    lemma_keep_all(m.strokes, hits);
    assert(spec_erase(m, hits).strokes =~= m.strokes);
}

/// Keeping the unhit elements when nothing is hit keeps everything.
proof fn lemma_keep_all<A>(s: Seq<A>, hits: Seq<bool>)
    requires
        hits.len() >= s.len(),
        forall|i: int| 0 <= i < hits.len() ==> !#[trigger] hits[i],
    ensures
        keep_unhit(s, hits) == s,
    decreases s.len(),
{
    if s.len() > 0 {
        lemma_keep_all(s.drop_last(), hits);
        assert(!hits[s.len() - 1]);
        assert(keep_unhit(s, hits) =~= s);
    } else {
        assert(keep_unhit(s, hits) =~= s);
    }
}

/// The markup of one item of the paint order: a stored stroke with its own
/// kind, colour and width, or the preview with the selected pen and colour
/// and that pen's default width.
pub open spec fn spec_item_text<P>(
    m: DrawingView<P>,
    stored: Seq<StrokeText>,
    current: StrokeText,
    it: DrawItem,
) -> Seq<char> {
    match it {
        DrawItem::Stored(i) => spec_render(
            m.strokes[i as int].kind,
            m.strokes[i as int].color,
            m.strokes[i as int].width_tenths,
            stored[i as int],
        ),
        DrawItem::Current => spec_render(m.pen, m.color, spec_width_tenths(m.pen), current),
    }
}

/// The markup of a sequence of paint-order items, one after the other.
pub open spec fn spec_body<P>(
    m: DrawingView<P>,
    stored: Seq<StrokeText>,
    current: StrokeText,
    order: Seq<DrawItem>,
) -> Seq<char>
    decreases order.len(),
{
    if order.len() == 0 {
        Seq::empty()
    } else {
        spec_body(m, stored, current, order.drop_last()) + spec_item_text(
            m,
            stored,
            current,
            order.last(),
        )
    }
}

/// A gesture with an ink pen, down at `a` and moved to `b` and lifted,
/// stores one stroke after the existing ones: through `a` then `b`, with the
/// selected pen and colour and that pen's default width; the colour chosen
/// just before the gesture is the colour stored.
pub proof fn lemma_gesture_stores_stroke<P>(m: DrawingView<P>, c: Seq<char>, a: P, b: P)
    requires
        m.pen != PenKind::Eraser,
    ensures
        ({
            let e = spec_touch_end(spec_touch_move(spec_touch_start(spec_select_color(m, c), a), b));
            &&& e.strokes.len() == m.strokes.len() + 1
            &&& e.strokes.subrange(0, m.strokes.len() as int) == m.strokes
            &&& e.strokes.last().points == seq![a, b]
            &&& e.strokes.last().kind == m.pen
            &&& e.strokes.last().color == c
            &&& e.strokes.last().width_tenths == spec_width_tenths(m.pen)
            &&& e.current.len() == 0
        }),
{
    let e = spec_touch_end(spec_touch_move(spec_touch_start(spec_select_color(m, c), a), b));
    assert(seq![a].push(b) =~= seq![a, b]);
    assert(e.strokes.subrange(0, m.strokes.len() as int) =~= m.strokes);
}

/// An eraser touch that hits every stroke deletes them all; the stroke in
/// progress, colour and pen stay.
pub proof fn lemma_erase_all_hit<P>(m: DrawingView<P>, hits: Seq<bool>)
    requires
        hits.len() == m.strokes.len(),
        forall|i: int| 0 <= i < hits.len() ==> #[trigger] hits[i],
    ensures
        spec_erase(m, hits).strokes.len() == 0,
        spec_erase(m, hits).current == m.current,
        spec_erase(m, hits).color == m.color,
        spec_erase(m, hits).pen == m.pen,
{
    lemma_keep_unhit_within(m.strokes, hits);
    if spec_erase(m, hits).strokes.len() > 0 {
        let k = keep_unhit(m.strokes, hits);
        let i = choose|i: int| 0 <= i < m.strokes.len() && !hits[i] && m.strokes[i] == #[trigger] k[0];
        assert(hits[i]);
    }
}

/// Undo removes exactly the most recently completed stroke, whatever pen and
/// colour are selected: a drawing with strokes loses one, the others stay
/// as they were in the same order, and nothing else changes; undo on a
/// drawing without strokes changes nothing. Choosing a pen or a colour
/// before or after an undo gives the same drawing.
pub proof fn lemma_undo_drops_last<P>(m: DrawingView<P>, p: PenKind, c: Seq<char>)
    ensures
        m.strokes.len() > 0 ==> spec_undo(m).strokes.len() + 1 == m.strokes.len(),
        forall|i: int|
            0 <= i < m.strokes.len() - 1 ==> #[trigger] spec_undo(m).strokes[i] == m.strokes[i],
        m.strokes.len() == 0 ==> spec_undo(m) == m,
        spec_undo(m).current == m.current,
        spec_undo(m).color == m.color,
        spec_undo(m).pen == m.pen,
        spec_undo(spec_select_pen(m, p)) == spec_select_pen(spec_undo(m), p),
        spec_undo(spec_select_color(m, c)) == spec_select_color(spec_undo(m), c),
{
}

/// The markups of two paint orders are equal when they are item by item.
proof fn lemma_body_congruent<P>(
    m1: DrawingView<P>,
    stored1: Seq<StrokeText>,
    current1: StrokeText,
    o1: Seq<DrawItem>,
    m2: DrawingView<P>,
    stored2: Seq<StrokeText>,
    current2: StrokeText,
    o2: Seq<DrawItem>,
)
    requires
        o1.len() == o2.len(),
        forall|j: int|
            0 <= j < o1.len() ==> spec_item_text(m1, stored1, current1, #[trigger] o1[j])
                == spec_item_text(m2, stored2, current2, o2[j]),
    ensures
        spec_body(m1, stored1, current1, o1) == spec_body(m2, stored2, current2, o2),
    decreases o1.len(),
{
    if o1.len() > 0 {
        let p1 = o1.drop_last();
        let p2 = o2.drop_last();
        assert forall|j: int| 0 <= j < p1.len() implies spec_item_text(
            m1,
            stored1,
            current1,
            #[trigger] p1[j],
        ) == spec_item_text(m2, stored2, current2, p2[j]) by {
            assert(p1[j] == o1[j] && p2[j] == o2[j]);
        }
        lemma_body_congruent(m1, stored1, current1, p1, m2, stored2, current2, p2);
        assert(spec_item_text(m1, stored1, current1, o1.last()) == spec_item_text(
            m2,
            stored2,
            current2,
            o2.last(),
        ));
    }
}

/// Lifting the touch does not change the picture: the document of the
/// drawing after the lift, with the preview's geometry as the new stroke's
/// geometry, is the document before the lift. So the preview is drawn with
/// the pen, colour and width the stroke is stored with, and in the place
/// of the paint order the stroke then takes.
pub proof fn lemma_lift_keeps_picture<P>(
    m: DrawingView<P>,
    stored: Seq<StrokeText>,
    current: StrokeText,
    after: StrokeText,
)
    requires
        spec_commits(m),
        stored.len() == m.strokes.len(),
        m.strokes.len() < usize::MAX,
    ensures
        spec_body(
            spec_touch_end(m),
            stored.push(current),
            after,
            spec_draw_order(spec_touch_end(m)),
        ) == spec_body(m, stored, current, spec_draw_order(m)),
{
    let n = m.strokes.len();
    let m2 = spec_touch_end(m);
    let s2 = m2.strokes;
    let st2 = stored.push(current);
    assert(s2.drop_last() =~= m.strokes);
    assert(s2.last() == spec_pending(m));
    lemma_layer(m.strokes, true);
    lemma_layer(m.strokes, false);
    let under = spec_underlay(m.pen);
    let lt = spec_layer(m.strokes, true);
    let lf = spec_layer(m.strokes, false);
    let o1 = spec_draw_order(m);
    let o2 = spec_draw_order(m2);
    assert(spec_preview_kind(m2) is None);
    assert(spec_preview_kind(m) == Some(m.pen));
    // The item of the new stroke, and its text, which is the preview's.
    let x = DrawItem::Stored(n as usize);
    assert(spec_item_text(m2, st2, after, x) == spec_item_text(
        m,
        stored,
        current,
        DrawItem::Current,
    ));
    // Old strokes keep their text.
    assert forall|i: int| 0 <= i < n implies #[trigger] spec_item_text(
        m2,
        st2,
        after,
        DrawItem::Stored(i as usize),
    ) == spec_item_text(m, stored, current, DrawItem::Stored(i as usize)) by {
        assert(s2[i] == m.strokes[i]);
        assert(st2[i] == stored[i]);
    }
    if under {
        assert(spec_layer(s2, true) =~= lt + seq![x]);
        assert(spec_layer(s2, false) =~= lf);
        assert(o2 =~= lt + seq![x] + lf);
        assert(o1 =~= lt + seq![DrawItem::Current] + lf);
        assert forall|j: int| 0 <= j < o1.len() implies spec_item_text(
            m,
            stored,
            current,
            #[trigger] o1[j],
        ) == spec_item_text(m2, st2, after, o2[j]) by {
            if j < lt.len() {
                assert(o1[j] == lt[j] && o2[j] == lt[j]);
                assert(0 <= item_index(lt[j]) < n);
            } else if j > lt.len() {
                assert(o1[j] == lf[j - lt.len() - 1] && o2[j] == lf[j - lt.len() - 1]);
                assert(0 <= item_index(lf[j - lt.len() - 1]) < n);
            }
        }
    } else {
        assert(spec_layer(s2, true) =~= lt);
        assert(spec_layer(s2, false) =~= lf + seq![x]);
        assert(o2 =~= lt + lf + seq![x]);
        assert(o1 =~= lt + lf + seq![DrawItem::Current]);
        assert forall|j: int| 0 <= j < o1.len() implies spec_item_text(
            m,
            stored,
            current,
            #[trigger] o1[j],
        ) == spec_item_text(m2, st2, after, o2[j]) by {
            if j < lt.len() {
                assert(o1[j] == lt[j] && o2[j] == lt[j]);
                assert(0 <= item_index(lt[j]) < n);
            } else if j < lt.len() + lf.len() {
                assert(o1[j] == lf[j - lt.len()] && o2[j] == lf[j - lt.len()]);
                assert(0 <= item_index(lf[j - lt.len()]) < n);
            }
        }
    }
    lemma_body_congruent(m, stored, current, o1, m2, st2, after, o2);
}

impl<P> Drawing<P> {
    /// The drawing is well formed.
    pub open spec fn wf(&self) -> bool {
        drawing_ok(self@)
    }

    /// A fresh canvas.
    pub fn new() -> (r: Self)
        ensures
            r@ == spec_new::<P>(),
            r.wf(),
    {
        let r = Drawing {
            strokes: Vec::new(),
            current: Vec::new(),
            color: default_color(),
            pen: PenKind::Ballpoint,
        };
        assert(r@.strokes =~= Seq::<StrokeView<P>>::empty());
        assert(spec_palette()[0] == r@.color);
        r
    }

    /// The completed strokes, in draw order. None of them is an eraser
    /// stroke, each has a point, and each has the default width of its kind.
    pub fn strokes(&self) -> (r: &Vec<Stroke<P>>)
        requires
            self.wf(),
        ensures
            stroke_views(r@) == self@.strokes,
            forall|i: int| 0 <= i < r@.len() ==> #[trigger] stroke_ok(r@[i]@),
    {
        proof {
            assert forall|i: int| 0 <= i < self.strokes@.len() implies #[trigger] stroke_ok(
                self.strokes@[i]@,
            ) by {
                assert(self@.strokes[i] == self.strokes@[i]@);
            }
        }
        &self.strokes
    }

    /// The points of the stroke in progress.
    pub fn current(&self) -> (r: &Vec<P>)
        ensures
            r@ == self@.current,
    {
        &self.current
    }

    /// The selected colour.
    pub fn color(&self) -> (r: &String)
        ensures
            r@ == self@.color,
    {
        &self.color
    }

    /// The selected pen.
    pub fn pen(&self) -> (r: PenKind)
        ensures
            r == self@.pen,
    {
        self.pen
    }

    /// Selects the colour that new strokes are drawn with, one of the palette.
    pub fn select_color(&mut self, c: String)
        requires
            old(self).wf(),
            spec_palette().contains(c@),
        ensures
            final(self)@ == spec_select_color(old(self)@, c@),
            final(self).wf(),
    {
        self.color = c;
    }

    /// Selects the pen that new strokes are drawn with.
    pub fn select_pen(&mut self, p: PenKind)
        requires
            old(self).wf(),
        ensures
            final(self)@ == spec_select_pen(old(self)@, p),
            final(self).wf(),
    {
        self.pen = p;
    }

    /// Removes the most recently completed stroke.
    pub fn undo(&mut self)
        requires
            old(self).wf(),
        ensures
            final(self)@ == spec_undo(old(self)@),
            final(self).wf(),
    {
        let ghost before = self.strokes@;
        let _ = self.strokes.pop();
        proof {
            if before.len() > 0 {
                assert(stroke_views(self.strokes@) =~= stroke_views(before).drop_last());
            }
        }
    }

    /// Removes every stroke and the stroke in progress.
    pub fn clear(&mut self)
        requires
            old(self).wf(),
        ensures
            final(self)@ == spec_clear(old(self)@),
            final(self).wf(),
    {
        self.strokes = Vec::new();
        self.current = Vec::new();
        assert(self@.strokes =~= Seq::<StrokeView<P>>::empty());
    }

    /// A touch goes down at `pt`. Returns whether the eraser is selected, in
    /// which case the caller deletes the strokes the eraser hits there.
    pub fn touch_start(&mut self, pt: P) -> (erasing: bool)
        requires
            old(self).wf(),
        ensures
            erasing == (old(self)@.pen == PenKind::Eraser),
            final(self)@ == spec_touch_start(old(self)@, pt),
            final(self).wf(),
    {
        if self.pen == PenKind::Eraser {
            true
        } else {
            let mut v: Vec<P> = Vec::new();
            v.push(pt);
            self.current = v;
            assert(self@.current =~= seq![pt]);
            false
        }
    }

    /// The touch moves to `pt`. Returns whether the eraser is selected, in
    /// which case the caller deletes the strokes the eraser hits there.
    pub fn touch_move(&mut self, pt: P) -> (erasing: bool)
        requires
            old(self).wf(),
        ensures
            erasing == (old(self)@.pen == PenKind::Eraser),
            final(self)@ == spec_touch_move(old(self)@, pt),
            final(self).wf(),
    {
        if self.pen == PenKind::Eraser {
            true
        } else {
            self.current.push(pt);
            false
        }
    }

    /// The touch is lifted: a non-empty stroke drawn with an ink is stored
    /// with the current pen, colour and that pen's default width; the stroke
    /// in progress is emptied either way.
    pub fn touch_end(&mut self)
        requires
            old(self).wf(),
        ensures
            final(self)@ == spec_touch_end(old(self)@),
            final(self).wf(),
    {
        let ghost m = self@;
        let ghost before = self.strokes@;
        let mut pts: Vec<P> = Vec::new();
        std::mem::swap(&mut pts, &mut self.current);
        if self.pen != PenKind::Eraser && pts.len() > 0 {
            let s = Stroke {
                kind: self.pen,
                color: self.color.clone(),
                width_tenths: self.pen.default_width_tenths(),
                points: pts,
            };
            assert(s@ == spec_pending(m));
            self.strokes.push(s);
            assert(stroke_views(self.strokes@) =~= stroke_views(before).push(spec_pending(m)));
        }
        assert(self@.current =~= Seq::<P>::empty());
        assert(self@ == spec_touch_end(m));
    }

    /// Deletes the strokes that the eraser hits: `hits[i]` tells whether
    /// it touches stroke `i`. The other strokes keep their order.
    pub fn erase(&mut self, hits: &[bool])
        requires
            old(self).wf(),
            hits@.len() == old(self)@.strokes.len(),
        ensures
            final(self)@ == spec_erase(old(self)@, hits@),
            final(self).wf(),
    {
        let ghost m = self@;
        let ghost before = self.strokes@;
        let n = self.strokes.len();
        let mut i: usize = 0;
        let mut k: usize = 0;
        assert(before.skip(0) =~= before);
        while k < n
            invariant
                n == before.len(),
                hits@.len() == n,
                k <= n,
                self.strokes@ == keep_unhit(before.take(k as int), hits@) + before.skip(k as int),
                i == keep_unhit(before.take(k as int), hits@).len(),
                self.color@ == m.color,
                self.current@ == m.current,
                self.pen == m.pen,
            decreases n - k,
        {
            let ghost pre = keep_unhit(before.take(k as int), hits@);
            proof {
                lemma_keep_unhit_within(before.take(k as int), hits@);
                let t = before.take(k + 1);
                assert(t.drop_last() =~= before.take(k as int));
                assert(t.last() == before[k as int]);
            }
            if hits[k] {
                self.strokes.remove(i);
                assert(self.strokes@ =~= pre + before.skip(k + 1));
            } else {
                assert(self.strokes@ =~= (pre + seq![before[k as int]]) + before.skip(k + 1));
                i = i + 1;
            }
            k = k + 1;
        }
        proof {
            assert(before.take(n as int) =~= before);
            assert(before.skip(n as int) =~= Seq::<Stroke<P>>::empty());
            assert(self.strokes@ =~= keep_unhit(before, hits@));
            lemma_keep_unhit_views(before, hits@);
            lemma_keep_unhit_within(m.strokes, hits@);
            assert(self@ == spec_erase(m, hits@));
            assert forall|j: int| 0 <= j < self@.strokes.len() implies #[trigger] stroke_ok(
                self@.strokes[j],
            ) by {
                let i = choose|i: int|
                    0 <= i < m.strokes.len() && !hits@[i] && m.strokes[i]
                        == #[trigger] keep_unhit(m.strokes, hits@)[j];
                assert(stroke_ok(m.strokes[i]));
            }
        }
    }

    /// The order in which the document paints the strokes: the underlay
    /// (highlighter) strokes first, everything else on top, and within each
    /// layer the order in which the strokes were drawn; the preview of the
    /// stroke in progress comes last in its layer.
    pub fn draw_order(&self) -> (r: Vec<DrawItem>)
        ensures
            r@ == spec_draw_order(self@),
    {
        let ghost m = self@;
        let n = self.strokes.len();
        let mut r: Vec<DrawItem> = Vec::new();
        let mut i: usize = 0;
        while i < n
            invariant
                n == self.strokes@.len(),
                m == self@,
                i <= n,
                r@ == spec_layer(m.strokes.take(i as int), true),
            decreases n - i,
        {
            proof {
                let t = m.strokes.take(i + 1);
                assert(t.drop_last() =~= m.strokes.take(i as int));
                assert(t.last() == self.strokes@[i as int]@);
            }
            if self.strokes[i].kind.is_underlay() {
                r.push(DrawItem::Stored(i));
            }
            i = i + 1;
        }
        assert(m.strokes.take(n as int) =~= m.strokes);
        let preview = self.preview_kind();
        match preview {
            Some(k) => {
                if k.is_underlay() {
                    r.push(DrawItem::Current);
                }
            },
            None => {},
        }
        let ghost front = r@;
        assert(front =~= spec_layer(m.strokes, true) + spec_current_in(m, true));
        i = 0;
        while i < n
            invariant
                n == self.strokes@.len(),
                m == self@,
                i <= n,
                r@ == front + spec_layer(m.strokes.take(i as int), false),
            decreases n - i,
        {
            proof {
                let t = m.strokes.take(i + 1);
                assert(t.drop_last() =~= m.strokes.take(i as int));
                assert(t.last() == self.strokes@[i as int]@);
            }
            if !self.strokes[i].kind.is_underlay() {
                r.push(DrawItem::Stored(i));
            }
            i = i + 1;
        }
        match preview {
            Some(k) => {
                if !k.is_underlay() {
                    r.push(DrawItem::Current);
                }
            },
            None => {},
        }
        assert(r@ =~= spec_draw_order(m));
        r
    }

    /// The whole SVG document of the drawing, `w` by `h`: every item of the
    /// paint order drawn with its kind, colour and width, from the geometry
    /// written out for it (`stored[i]` for stroke `i`, `current` for the
    /// preview).
    pub fn render_document(
        &self,
        w: &str,
        h: &str,
        stored: &[StrokeText],
        current: &StrokeText,
    ) -> (r: String)
        requires
            self.wf(),
            stored@.len() == self@.strokes.len(),
        ensures
            r@ == spec_document(
                w@,
                h@,
                spec_body(self@, stored@, *current, spec_draw_order(self@)),
            ),
    {
        let ghost m = self@;
        let order = self.draw_order();
        let ns = self.strokes.len();
        proof {
            assert(m.strokes.len() == ns);
            lemma_draw_order_layers(m);
        }
        let mut body = String::new();
        let n = order.len();
        let mut k: usize = 0;
        while k < n
            invariant
                m == self@,
                n == order@.len(),
                order@ == spec_draw_order(m),
                stored@.len() == m.strokes.len(),
                m.strokes.len() == self.strokes@.len(),
                k <= n,
                forall|j: int|
                    #![trigger order@[j]]
                    0 <= j < n && order@[j] is Stored ==> 0 <= item_index(order@[j])
                        < m.strokes.len(),
                body@ == spec_body(m, stored@, *current, order@.take(k as int)),
            decreases n - k,
        {
            let ghost before = body@;
            let item = order[k];
            match item {
                DrawItem::Stored(i) => {
                    assert(item_index(order@[k as int]) == i);
                    let s = &self.strokes[i];
                    assert(m.strokes[i as int] == s@);
                    render_stroke(&mut body, s.kind, s.color.as_str(), s.width_tenths, &stored[i]);
                },
                DrawItem::Current => {
                    render_stroke(
                        &mut body,
                        self.pen,
                        self.color.as_str(),
                        self.pen.default_width_tenths(),
                        current,
                    );
                },
            }
            proof {
                let t = order@.take(k + 1);
                assert(t.drop_last() =~= order@.take(k as int));
                assert(t.last() == item);
                assert(body@ == before + spec_item_text(m, stored@, *current, item));
            }
            k = k + 1;
        }
        assert(order@.take(n as int) =~= order@);
        svg_document(w, h, body.as_str())
    }

    /// The kind to preview the stroke in progress with, if there is one.
    pub fn preview_kind(&self) -> (r: Option<PenKind>)
        ensures
            r == spec_preview_kind(self@),
    {
        if self.current.len() == 0 || self.pen == PenKind::Eraser {
            None
        } else {
            Some(self.pen)
        }
    }
}

} // verus!
