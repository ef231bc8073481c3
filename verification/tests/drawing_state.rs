use drawapp::drawing::{DrawItem, Drawing};
use drawapp::pen::PenKind;
use drawapp::svg::StrokeText;

type Pt = (f64, f64);

fn stroke(d: &mut Drawing<Pt>, pts: &[Pt]) {
    let mut first = true;
    for p in pts {
        if first {
            d.touch_start(*p);
            first = false;
        } else {
            d.touch_move(*p);
        }
    }
    d.touch_end();
}

#[test]
fn fresh_canvas() {
    let d: Drawing<Pt> = Drawing::new();
    assert!(d.strokes().is_empty());
    assert!(d.current().is_empty());
    assert_eq!(d.color(), "#111111");
    assert_eq!(d.pen(), PenKind::Ballpoint);
    assert_eq!(d.preview_kind(), None);
    assert!(d.draw_order().is_empty());
}

#[test]
fn lifting_stores_the_stroke_with_its_pen() {
    let mut d: Drawing<Pt> = Drawing::new();
    d.select_color("#ef4444".to_string());
    d.select_pen(PenKind::Marker);
    assert!(!d.touch_start((1.0, 2.0)));
    assert!(!d.touch_move((3.0, 4.0)));
    assert_eq!(d.preview_kind(), Some(PenKind::Marker));
    d.touch_end();
    assert!(d.current().is_empty());
    let s = &d.strokes()[0];
    assert_eq!(s.kind, PenKind::Marker);
    assert_eq!(s.color, "#ef4444");
    assert_eq!(s.width_tenths, 70);
    assert_eq!(s.points, vec![(1.0, 2.0), (3.0, 4.0)]);
}

#[test]
fn switching_pens_keeps_old_strokes() {
    let mut d: Drawing<Pt> = Drawing::new();
    stroke(&mut d, &[(0.0, 0.0), (1.0, 1.0)]);
    d.select_pen(PenKind::Neon);
    d.select_color("#a855f7".to_string());
    assert_eq!(d.strokes()[0].kind, PenKind::Ballpoint);
    assert_eq!(d.strokes()[0].color, "#111111");
    assert_eq!(d.strokes()[0].width_tenths, 25);
}

#[test]
fn eraser_never_draws() {
    let mut d: Drawing<Pt> = Drawing::new();
    d.select_pen(PenKind::Eraser);
    assert!(d.touch_start((1.0, 1.0)));
    assert!(d.touch_move((2.0, 2.0)));
    assert!(d.current().is_empty());
    assert_eq!(d.preview_kind(), None);
    d.touch_end();
    assert!(d.strokes().is_empty());
}

#[test]
fn eraser_deletes_only_hit_strokes_in_order() {
    let mut d: Drawing<Pt> = Drawing::new();
    stroke(&mut d, &[(0.0, 0.0)]);
    stroke(&mut d, &[(1.0, 0.0)]);
    stroke(&mut d, &[(2.0, 0.0)]);
    stroke(&mut d, &[(3.0, 0.0)]);
    d.erase(&[false, true, false, true]);
    let xs: Vec<f64> = d.strokes().iter().map(|s| s.points[0].0).collect();
    assert_eq!(xs, vec![0.0, 2.0]);
    d.erase(&[false, false]);
    assert_eq!(d.strokes().len(), 2);
}

#[test]
fn undo_removes_the_last_stroke() {
    let mut d: Drawing<Pt> = Drawing::new();
    stroke(&mut d, &[(0.0, 0.0)]);
    stroke(&mut d, &[(1.0, 1.0), (2.0, 2.0)]);
    d.undo();
    assert_eq!(d.strokes().len(), 1);
    assert_eq!(d.strokes()[0].points, vec![(0.0, 0.0)]);
    d.undo();
    d.undo();
    assert!(d.strokes().is_empty());
}

#[test]
fn clear_drops_everything() {
    let mut d: Drawing<Pt> = Drawing::new();
    stroke(&mut d, &[(0.0, 0.0)]);
    d.touch_start((5.0, 5.0));
    d.clear();
    assert!(d.strokes().is_empty());
    assert!(d.current().is_empty());
    assert_eq!(d.pen(), PenKind::Ballpoint);
}

#[test]
fn empty_lift_stores_nothing() {
    let mut d: Drawing<Pt> = Drawing::new();
    d.touch_end();
    assert!(d.strokes().is_empty());
}

#[test]
fn highlighter_strokes_are_painted_first() {
    let mut d: Drawing<Pt> = Drawing::new();
    stroke(&mut d, &[(0.0, 0.0)]); // 0 ballpoint
    d.select_pen(PenKind::Highlighter);
    stroke(&mut d, &[(1.0, 0.0)]); // 1 highlighter
    d.select_pen(PenKind::Dotted);
    stroke(&mut d, &[(2.0, 0.0)]); // 2 dotted
    d.select_pen(PenKind::Highlighter);
    stroke(&mut d, &[(3.0, 0.0)]); // 3 highlighter
    assert_eq!(
        d.draw_order(),
        vec![DrawItem::Stored(1), DrawItem::Stored(3), DrawItem::Stored(0), DrawItem::Stored(2)]
    );
    d.touch_start((4.0, 0.0));
    assert_eq!(
        d.draw_order(),
        vec![
            DrawItem::Stored(1),
            DrawItem::Stored(3),
            DrawItem::Current,
            DrawItem::Stored(0),
            DrawItem::Stored(2)
        ]
    );
    d.touch_end();
    d.select_pen(PenKind::Brush);
    d.touch_start((5.0, 0.0));
    assert_eq!(
        d.draw_order(),
        vec![
            DrawItem::Stored(1),
            DrawItem::Stored(3),
            DrawItem::Stored(4),
            DrawItem::Stored(0),
            DrawItem::Stored(2),
            DrawItem::Current
        ]
    );
}

#[test]
fn undo_after_lift_restores_strokes() {
    let mut d: Drawing<Pt> = Drawing::new();
    stroke(&mut d, &[(0.0, 0.0)]);
    let before: Vec<Vec<Pt>> = d.strokes().iter().map(|s| s.points.clone()).collect();
    stroke(&mut d, &[(7.0, 7.0), (8.0, 8.0)]);
    d.undo();
    let after: Vec<Vec<Pt>> = d.strokes().iter().map(|s| s.points.clone()).collect();
    assert_eq!(before, after);
}

fn text_of(points: Vec<(String, String)>) -> StrokeText {
    StrokeText {
        points,
        runs: Vec::new(),
        dots: Vec::new(),
        ring: Vec::new(),
        start_cap: (String::new(), String::new()),
        end_cap: (String::new(), String::new()),
    }
}

#[test]
fn document_in_paint_order() {
    let mut d: Drawing<Pt> = Drawing::new();
    stroke(&mut d, &[(0.0, 0.0)]); // ballpoint dot
    d.select_pen(PenKind::Highlighter);
    d.select_color("#f59e0b".to_string());
    stroke(&mut d, &[(1.0, 1.0)]); // highlighter dot, painted first
    let stored = vec![
        text_of(vec![("0.00".to_string(), "0.00".to_string())]),
        text_of(vec![("1.00".to_string(), "1.00".to_string())]),
    ];
    let current = text_of(Vec::new());
    assert_eq!(
        d.render_document("10", "20", &stored, &current),
        "<svg viewBox=\"0 0 10 20\">\
         <g opacity=\"0.4\"><circle cx=\"1.00\" cy=\"1.00\" r=\"11.00\" fill=\"#f59e0b\"/></g>\
         <circle cx=\"0.00\" cy=\"0.00\" r=\"1.25\" fill=\"#111111\"/></svg>"
    );
}
