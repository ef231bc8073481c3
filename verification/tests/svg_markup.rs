use drawapp::pen::PenKind;
use drawapp::size::{dash_hundredths, dot_spacing_hundredths, half_width_hundredths, hundredths_text};
use drawapp::svg::{
    calligraphy, dashed, dotted, highlighter, neon, poly_points, push_dot, render_stroke,
    solid_poly, svg_document, StrokeText,
};

fn pt(x: &str, y: &str) -> (String, String) {
    (x.to_string(), y.to_string())
}

fn none() -> (String, String) {
    (String::new(), String::new())
}

#[test]
fn sizes_are_written_with_two_decimals() {
    assert_eq!(hundredths_text(0), "0.00");
    assert_eq!(hundredths_text(5), "0.05");
    assert_eq!(hundredths_text(50), "0.50");
    assert_eq!(hundredths_text(250), "2.50");
    assert_eq!(hundredths_text(1320), "13.20");
    assert_eq!(hundredths_text(123456), "1234.56");
    // the same text as writing the f64 size with two decimals
    assert_eq!(hundredths_text(125), format!("{:.2}", 2.5f64 / 2.0));
    assert_eq!(hundredths_text(300), format!("{:.2}", 2.5f64 * 1.2));
}

#[test]
fn size_table() {
    assert_eq!(half_width_hundredths(25), 125);
    assert_eq!(dash_hundredths(40), (1400, 1000));
    assert_eq!(dot_spacing_hundredths(60), 1320);
}

#[test]
fn points_attribute() {
    assert_eq!(poly_points(&[]), "");
    assert_eq!(poly_points(&[pt("1.00", "2.00")]), "1.00,2.00");
    assert_eq!(
        poly_points(&[pt("1.00", "2.00"), pt("3.50", "4.25"), pt("0.00", "9.00")]),
        "1.00,2.00 3.50,4.25 0.00,9.00"
    );
}

#[test]
fn dot_markup() {
    let mut body = String::from("<g>");
    push_dot(&mut body, "1.00", "2.00", "1.25", "#111111");
    assert_eq!(body, "<g><circle cx=\"1.00\" cy=\"2.00\" r=\"1.25\" fill=\"#111111\"/>");
}

#[test]
fn solid_line_by_point_count() {
    let mut body = String::new();
    solid_poly(&mut body, &[], "#111111", 25, false, false);
    assert_eq!(body, "");

    solid_poly(&mut body, &[pt("1.00", "2.00")], "#111111", 25, true, false);
    assert_eq!(body, "<circle cx=\"1.00\" cy=\"2.00\" r=\"1.25\" fill=\"#111111\"/>");

    let mut body = String::new();
    solid_poly(&mut body, &[pt("1.00", "2.00"), pt("3.00", "4.00")], "#111111", 25, false, false);
    assert_eq!(
        body,
        "<polyline points=\"1.00,2.00 3.00,4.00\" fill=\"none\" stroke=\"#111111\" stroke-width=\"2.50\"/>"
    );
}

#[test]
fn ballpoint_has_round_caps() {
    let mut body = String::new();
    let pts = [pt("1.00", "2.00"), pt("3.00", "4.00"), pt("5.00", "6.00")];
    solid_poly(&mut body, &pts, "#111111", 25, true, false);
    assert_eq!(
        body,
        "<polyline points=\"1.00,2.00 3.00,4.00 5.00,6.00\" fill=\"none\" stroke=\"#111111\" stroke-width=\"2.50\"/>\
         <circle cx=\"1.00\" cy=\"2.00\" r=\"1.25\" fill=\"#111111\"/>\
         <circle cx=\"5.00\" cy=\"6.00\" r=\"1.25\" fill=\"#111111\"/>"
    );
}

#[test]
fn brush_adds_vertex_dots() {
    let mut body = String::new();
    solid_poly(&mut body, &[pt("1.00", "2.00"), pt("3.00", "4.00")], "#ef4444", 160, true, true);
    assert_eq!(
        body,
        "<polyline points=\"1.00,2.00 3.00,4.00\" fill=\"none\" stroke=\"#ef4444\" stroke-width=\"16.00\"/>\
         <circle cx=\"1.00\" cy=\"2.00\" r=\"8.00\" fill=\"#ef4444\"/>\
         <circle cx=\"3.00\" cy=\"4.00\" r=\"8.00\" fill=\"#ef4444\"/>"
    );
}

#[test]
fn highlighter_is_grouped_and_square_capped() {
    let mut body = String::new();
    highlighter(&mut body, &[], &none(), &none(), "#f59e0b", 220);
    assert_eq!(body, "<g opacity=\"0.4\"></g>");
    let mut body = String::new();
    highlighter(
        &mut body,
        &[pt("20.00", "0.00"), pt("25.00", "0.00"), pt("40.00", "0.00")],
        &pt("9.00", "0.00"),
        &pt("51.00", "0.00"),
        "#f59e0b",
        220,
    );
    assert_eq!(
        body,
        "<g opacity=\"0.4\"><polyline points=\"9.00,0.00 25.00,0.00 51.00,0.00\" fill=\"none\" stroke=\"#f59e0b\" stroke-width=\"22.00\"/></g>"
    );
    let mut body = String::new();
    highlighter(&mut body, &[pt("1.00", "1.00")], &none(), &none(), "#f59e0b", 220);
    assert_eq!(
        body,
        "<g opacity=\"0.4\"><circle cx=\"1.00\" cy=\"1.00\" r=\"11.00\" fill=\"#f59e0b\"/></g>"
    );
}

#[test]
fn dashed_runs_become_polylines() {
    let runs = vec![
        vec![pt("0.00", "0.00"), pt("14.00", "0.00")],
        vec![pt("24.00", "0.00"), pt("30.00", "0.00")],
    ];
    let mut body = String::new();
    dashed(&mut body, &[pt("0.00", "0.00"), pt("30.00", "0.00")], &runs, "#111111", 40);
    assert_eq!(
        body,
        "<polyline points=\"0.00,0.00 14.00,0.00\" fill=\"none\" stroke=\"#111111\" stroke-width=\"4.00\"/>\
         <polyline points=\"24.00,0.00 30.00,0.00\" fill=\"none\" stroke=\"#111111\" stroke-width=\"4.00\"/>"
    );
    let mut body = String::new();
    dashed(&mut body, &[pt("5.00", "6.00")], &[], "#111111", 40);
    assert_eq!(body, "<circle cx=\"5.00\" cy=\"6.00\" r=\"2.00\" fill=\"#111111\"/>");
}

#[test]
fn dots_along_the_path() {
    let mut body = String::new();
    dotted(&mut body, &[pt("0.00", "0.00"), pt("13.20", "0.00")], "#22c55e", 60);
    assert_eq!(
        body,
        "<circle cx=\"0.00\" cy=\"0.00\" r=\"3.00\" fill=\"#22c55e\"/>\
         <circle cx=\"13.20\" cy=\"0.00\" r=\"3.00\" fill=\"#22c55e\"/>"
    );
}

#[test]
fn neon_single_point() {
    let mut body = String::new();
    neon(&mut body, &[pt("1.00", "1.00")], "#3b82f6", 50);
    assert_eq!(
        body,
        "<g opacity=\"0.5\"><circle cx=\"1.00\" cy=\"1.00\" r=\"6.00\" fill=\"#3b82f6\"/></g>\
         <circle cx=\"1.00\" cy=\"1.00\" r=\"2.50\" fill=\"#3b82f6\"/>\
         <circle cx=\"1.00\" cy=\"1.00\" r=\"1.00\" fill=\"#ffffff\"/>"
    );
}

#[test]
fn neon_line() {
    let mut body = String::new();
    neon(&mut body, &[pt("1.00", "1.00"), pt("2.00", "2.00")], "#3b82f6", 50);
    assert_eq!(
        body,
        "<g opacity=\"0.5\"><polyline points=\"1.00,1.00 2.00,2.00\" fill=\"none\" stroke=\"#3b82f6\" stroke-width=\"12.00\"/></g>\
         <polyline points=\"1.00,1.00 2.00,2.00\" fill=\"none\" stroke=\"#3b82f6\" stroke-width=\"5.00\"/>\
         <polyline points=\"1.00,1.00 2.00,2.00\" fill=\"none\" stroke=\"#ffffff\" stroke-width=\"2.00\"/>"
    );
    let mut body = String::new();
    neon(&mut body, &[], "#3b82f6", 50);
    assert_eq!(body, "");
}

#[test]
fn calligraphy_ribbon_and_dot() {
    let mut body = String::new();
    let ring = [pt("0.00", "1.00"), pt("4.00", "1.00"), pt("4.00", "-1.00"), pt("0.00", "-1.00")];
    calligraphy(&mut body, &[pt("0.00", "0.00"), pt("4.00", "0.00")], &ring, "#a855f7", 110);
    assert_eq!(
        body,
        "<polygon points=\"0.00,1.00 4.00,1.00 4.00,-1.00 0.00,-1.00\" fill=\"#a855f7\"/>"
    );
    let mut body = String::new();
    calligraphy(&mut body, &[pt("3.00", "3.00")], &[], "#a855f7", 110);
    assert_eq!(body, "<circle cx=\"3.00\" cy=\"3.00\" r=\"5.50\" fill=\"#a855f7\"/>");
    let mut body = String::new();
    calligraphy(&mut body, &[], &[], "#a855f7", 110);
    assert_eq!(body, "");
}

fn text_of(points: Vec<(String, String)>) -> StrokeText {
    StrokeText {
        points,
        runs: Vec::new(),
        dots: Vec::new(),
        ring: Vec::new(),
        start_cap: none(),
        end_cap: none(),
    }
}

#[test]
fn render_dispatches_by_kind() {
    let g = text_of(vec![pt("1.00", "2.00")]);
    let mut body = String::new();
    render_stroke(&mut body, PenKind::Marker, "#111111", 70, &g);
    assert_eq!(body, "<circle cx=\"1.00\" cy=\"2.00\" r=\"3.50\" fill=\"#111111\"/>");
    let mut body = String::new();
    render_stroke(&mut body, PenKind::Eraser, "#111111", 180, &g);
    assert_eq!(body, "");
}

#[test]
fn document_wraps_the_body() {
    assert_eq!(
        svg_document("390", "600", "<g/>"),
        "<svg viewBox=\"0 0 390 600\"><g/></svg>"
    );
}
