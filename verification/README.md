# drawapp

The verified core of a finger-painting app with selectable pens.

- `src/pen.rs` — the pen kinds: keys, labels, default widths, layering and
  which renderer each kind uses; the selector order.
- `src/style.rs` — the colour palette and the inline styles of the toolbar.
- `src/drawing.rs` — the drawing state (strokes, stroke in progress, colour,
  pen), its transitions for touches and toolbar buttons, the eraser's
  deletion, and the paint order of the document, with their laws.
- `src/size.rs` — the sizes each stroke is drawn with, as fixed multiples of
  its width, and how a size is written out.
- `src/svg.rs` — the SVG markup each pen produces, from coordinates already
  written out as text.
- `src/ribbon.rs` — index bookkeeping of the calligraphy ribbon.
- `app/` — the Whisker UI, the floating-point geometry and number
  formatting, and the app configuration.
