//! Batch certificate rendering: merge a declarative template (fonts, named
//! text fields at normalized positions) with rows of tabular data, producing
//! one ordered list of placement instructions per row.
//!
//! All positions and widths are integers: page coordinates in micrometers,
//! anchor fractions in thousandths of the page extent, font sizes in whole
//! points. File, image and document I/O live outside this crate; the library
//! holds the layout logic.

pub mod config;
pub mod error;
pub mod fonts;
pub mod layout;
pub mod measure;
pub mod render;
pub mod resolve;

use vstd::prelude::*;

verus! {

/// Page width of the landscape output document, in micrometers (297 mm).
pub const PAGE_WIDTH_UM: u64 = 297_000;

/// Page height of the landscape output document, in micrometers (210 mm).
pub const PAGE_HEIGHT_UM: u64 = 210_000;

/// Anchor fractions are expressed in thousandths: an `x` of 500 places the
/// field's center at half the page width.
pub const COORD_SCALE: u64 = 1000;

} // verus!
