//! The colour palette and the inline styles of the selector buttons.

use vstd::prelude::*;

verus! {

/// The palette shown in the top bar; the first entry is the default colour.
pub open spec fn spec_palette() -> Seq<Seq<char>> {
    seq!["#111111"@, "#ef4444"@, "#f59e0b"@, "#22c55e"@, "#3b82f6"@, "#a855f7"@]
}

/// The palette: ink, red, amber, green, blue, purple.
pub fn palette() -> (r: Vec<&'static str>)
    ensures
        r@.len() == spec_palette().len(),
        forall|i: int| 0 <= i < r@.len() ==> #[trigger] r@[i]@ == spec_palette()[i],
{
    let r: Vec<&'static str> = vec!["#111111", "#ef4444", "#f59e0b", "#22c55e", "#3b82f6", "#a855f7"];
    r
}

/// The colour a fresh canvas draws with: the first palette entry.
pub fn default_color() -> (r: String)
    ensures
        r@ == spec_palette()[0],
{
    String::from_str("#111111")
}

/// Every palette entry is its own key: no colour occurs twice.
pub proof fn lemma_palette_distinct()
    ensures
        forall|i: int, j: int|
            0 <= i < j < spec_palette().len() ==> spec_palette()[i] != spec_palette()[j],
{
    reveal_strlit("#111111");
    reveal_strlit("#ef4444");
    reveal_strlit("#f59e0b");
    reveal_strlit("#22c55e");
    reveal_strlit("#3b82f6");
    reveal_strlit("#a855f7");
    let p = spec_palette();
    assert forall|i: int, j: int| 0 <= i < j < p.len() implies p[i] != p[j] by {
        assert(p[i][1] != p[j][1] || p[i][2] != p[j][2]);
    }
}

/// The border colour of a palette swatch: white when it is the selected colour.
pub open spec fn spec_swatch_border(selected: bool) -> Seq<char> {
    if selected { "#ffffff"@ } else { "#52525b"@ }
}

/// The inline style of the swatch of colour `c`, given the selected colour.
pub open spec fn spec_swatch_style(c: Seq<char>, selected: bool) -> Seq<char> {
    "width: 30px; height: 30px; border-radius: 15px; background-color: "@ + c
        + "; border-width: 3px; border-style: solid; border-color: "@ + spec_swatch_border(selected)
        + ";"@
}

/// Style of the swatch for colour `c`; it is outlined in white when `c`
/// is the `current` colour.
pub fn swatch_style(current: &String, c: &str) -> (r: String)
    ensures
        r@ == spec_swatch_style(c@, current@ == c@),
{
    let cs = String::from_str(c);
    let selected = *current == cs;
    let border = if selected { "#ffffff" } else { "#52525b" };
    let mut r = String::from_str("width: 30px; height: 30px; border-radius: 15px; background-color: ");
    r.append(c);
    r.append("; border-width: 3px; border-style: solid; border-color: ");
    r.append(border);
    r.append(";");
    r
}

/// Background and border colour of a pen selector button.
pub open spec fn spec_button_colors(selected: bool) -> (Seq<char>, Seq<char>) {
    if selected { ("#4f46e5"@, "#c7d2fe"@) } else { ("#3f3f46"@, "#3f3f46"@) }
}

/// The inline style of a pen selector button.
pub open spec fn spec_pen_button_style(selected: bool) -> Seq<char> {
    "padding: 7px 12px; border-radius: 8px; background-color: "@ + spec_button_colors(selected).0
        + "; border-width: 2px; border-style: solid; border-color: "@ + spec_button_colors(selected).1
        + ";"@
}

/// Style of a pen selector button; the selected pen is highlighted.
pub fn pen_button_style(selected: bool) -> (r: String)
    ensures
        r@ == spec_pen_button_style(selected),
{
    let (bg, border) = if selected { ("#4f46e5", "#c7d2fe") } else { ("#3f3f46", "#3f3f46") };
    let mut r = String::from_str("padding: 7px 12px; border-radius: 8px; background-color: ");
    r.append(bg);
    r.append("; border-width: 2px; border-style: solid; border-color: ");
    r.append(border);
    r.append(";");
    r
}

} // verus!
