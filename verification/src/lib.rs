//! Placement, configuration and redraw decisions of a desktop watermark
//! overlay drawn on a layer-shell surface in one corner of every output.

pub mod color;
pub mod options;
pub mod outputs;
pub mod overlay;
pub mod placement;
