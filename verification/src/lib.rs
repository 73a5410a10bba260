//! A ring chart engine: weighted items are laid out as slices of an annulus,
//! small slices are suppressed, and pointer positions are mapped back to the
//! slice under them.
//!
//! All quantities are integers. Weights are whole numbers, angles are in
//! nanoradians, colour channels in parts of [`color::COLOR_SCALE`], and
//! lengths in whatever unit the caller measures the widget in. What takes
//! real arithmetic, the direction of the pointer as seen from the centre and
//! the drawing itself, is the caller's.

pub mod color;
pub mod layout;
pub mod pie_chart;
pub mod window;
