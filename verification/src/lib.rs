//! A finger-painting canvas with selectable pens: the pen table, the
//! drawing state and its transitions, and the SVG markup that renders it.

pub mod pen;
pub mod style;
pub mod size;
pub mod svg;
pub mod drawing;
pub mod ribbon;
