use drawapp::pen::{pens, PenKind, RenderStyle};
use drawapp::ribbon::{neighbours, ribbon_ring};

#[test]
fn ids_are_the_stable_keys() {
    let want = ["ball", "marker", "brush", "hl", "dash", "dot", "neon", "calli", "erase"];
    let got: Vec<&str> = pens().into_iter().map(|p| p.id()).collect();
    assert_eq!(got, want);
}

#[test]
fn ids_are_distinct() {
    let ids: Vec<&str> = pens().into_iter().map(|p| p.id()).collect();
    for i in 0..ids.len() {
        for j in (i + 1)..ids.len() {
            assert_ne!(ids[i], ids[j]);
        }
    }
}

#[test]
fn labels_on_the_selector() {
    let want = ["Pen", "Marker", "Brush", "HiLite", "Dash", "Dot", "Neon", "Calli", "Erase"];
    let got: Vec<&str> = pens().into_iter().map(|p| p.label()).collect();
    assert_eq!(got, want);
}

#[test]
fn default_widths_in_tenths() {
    let want = [25u32, 70, 160, 220, 40, 60, 50, 110, 180];
    let got: Vec<u32> = pens().into_iter().map(|p| p.default_width_tenths()).collect();
    assert_eq!(got, want);
    assert_eq!(PenKind::Ballpoint.default_width_tenths() as f64 / 10.0, 2.5);
}

#[test]
fn only_the_highlighter_is_an_underlay() {
    for p in pens() {
        assert_eq!(p.is_underlay(), p == PenKind::Highlighter);
    }
}

#[test]
fn selector_lists_each_pen_once_eraser_last() {
    let ps = pens();
    assert_eq!(ps.len(), 9);
    assert_eq!(*ps.last().unwrap(), PenKind::Eraser);
    for i in 0..ps.len() {
        for j in (i + 1)..ps.len() {
            assert_ne!(ps[i], ps[j]);
        }
    }
    assert_eq!(ps[0], PenKind::Ballpoint);
}

#[test]
fn render_style_dispatch() {
    assert_eq!(PenKind::Ballpoint.render_style(), RenderStyle::Solid { caps: true, joins: false });
    assert_eq!(PenKind::Marker.render_style(), RenderStyle::Solid { caps: true, joins: false });
    assert_eq!(PenKind::Brush.render_style(), RenderStyle::Solid { caps: true, joins: true });
    assert_eq!(PenKind::Highlighter.render_style(), RenderStyle::Highlight);
    assert_eq!(PenKind::Dashed.render_style(), RenderStyle::Dashed);
    assert_eq!(PenKind::Dotted.render_style(), RenderStyle::Dotted);
    assert_eq!(PenKind::Neon.render_style(), RenderStyle::Neon);
    assert_eq!(PenKind::Calligraphy.render_style(), RenderStyle::Calligraphy);
    assert_eq!(PenKind::Eraser.render_style(), RenderStyle::Nothing);
}

#[test]
fn ribbon_neighbours_clamp_at_the_ends() {
    assert_eq!(neighbours(0, 1), (0, 0));
    assert_eq!(neighbours(0, 4), (0, 1));
    assert_eq!(neighbours(2, 4), (1, 3));
    assert_eq!(neighbours(3, 4), (2, 3));
}

#[test]
fn ribbon_ring_goes_out_left_and_back_right() {
    assert_eq!(ribbon_ring(vec![1, 2, 3], vec![4, 5, 6]), vec![1, 2, 3, 6, 5, 4]);
    assert_eq!(ribbon_ring(Vec::<i32>::new(), vec![7]), vec![7]);
    assert_eq!(ribbon_ring(vec![1], Vec::new()), vec![1]);
}
