use drawapp::style::{default_color, palette, pen_button_style, swatch_style};

#[test]
fn palette_entries_and_default() {
    assert_eq!(
        palette(),
        vec!["#111111", "#ef4444", "#f59e0b", "#22c55e", "#3b82f6", "#a855f7"]
    );
    assert_eq!(default_color(), palette()[0]);
}

#[test]
fn palette_entries_are_distinct() {
    let p = palette();
    for i in 0..p.len() {
        for j in (i + 1)..p.len() {
            assert_ne!(p[i], p[j]);
        }
    }
}

#[test]
fn selected_swatch_is_outlined_in_white() {
    let cur = String::from("#ef4444");
    assert_eq!(
        swatch_style(&cur, "#ef4444"),
        "width: 30px; height: 30px; border-radius: 15px; background-color: #ef4444; \
         border-width: 3px; border-style: solid; border-color: #ffffff;"
    );
}

#[test]
fn other_swatches_are_outlined_in_grey() {
    let cur = String::from("#ef4444");
    assert_eq!(
        swatch_style(&cur, "#111111"),
        "width: 30px; height: 30px; border-radius: 15px; background-color: #111111; \
         border-width: 3px; border-style: solid; border-color: #52525b;"
    );
}

#[test]
fn pen_buttons() {
    assert_eq!(
        pen_button_style(true),
        "padding: 7px 12px; border-radius: 8px; background-color: #4f46e5; \
         border-width: 2px; border-style: solid; border-color: #c7d2fe;"
    );
    assert_eq!(
        pen_button_style(false),
        "padding: 7px 12px; border-radius: 8px; background-color: #3f3f46; \
         border-width: 2px; border-style: solid; border-color: #3f3f46;"
    );
}
