//! The template data model: a title, a set of named fonts, and a sequence of
//! positioned text fields. Immutable after load; parsing the on-disk
//! configuration document is the caller's concern.

use vstd::prelude::*;
use crate::COORD_SCALE;

verus! {

/// The largest font size (in points) a field may declare; keeps width
/// arithmetic within machine bounds.
pub const MAX_SIZE_PT: u32 = 1000;

/// A declared font: a unique name, and the font file's path relative to the
/// template's fonts directory. The bytes behind `file` are loaded and
/// measured outside this crate.
#[derive(Clone, Debug)]
pub struct Font {
    pub name: String,
    pub file: String,
}

/// One text field of the template. `x` and `y` are anchor fractions in
/// thousandths of the page extent: `x` designates the horizontal center of
/// the rendered text, `y` its baseline. `font` must match a declared
/// `Font::name`; `size` is the nominal size in points. When `conditional` is
/// set the field renders a fixed marker only on rows whose value equals the
/// trigger string.
#[derive(Clone, Debug)]
pub struct Text {
    pub name: String,
    pub x: u32,
    pub y: u32,
    pub font: String,
    pub size: u32,
    pub conditional: Option<String>,
}

impl Text {
    /// A well-formed field keeps its anchor fractions on the page and its
    /// size positive and bounded.
    pub open spec fn wf(&self) -> bool {
        &&& self.x <= COORD_SCALE
        &&& self.y <= COORD_SCALE
        &&& 1 <= self.size <= MAX_SIZE_PT
    }
}

/// A full template: the document title (also the output filename prefix),
/// the declared fonts, and the text fields in render order.
#[derive(Clone, Debug)]
pub struct Config {
    pub title: String,
    pub fonts: Vec<Font>,
    pub texts: Vec<Text>,
}

impl Config {
    /// Every field of a well-formed template is itself well-formed.
    pub open spec fn wf(&self) -> bool {
        forall|i: int| 0 <= i < self.texts@.len() ==> (#[trigger] self.texts@[i]).wf()
    }
}

} // verus!
