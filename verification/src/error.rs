//! The failure taxonomy of the rendering pipeline. Every failure is fatal to
//! the whole batch: one bad row halts all remaining output.

use vstd::prelude::*;

verus! {

/// A fatal rendering error. Configuration errors (`DuplicateFontName`,
/// `MissingFont`) abort before any row is processed; row errors
/// (`MissingFieldValue`, `MissingIdentityValue`, `UnshapeableText`) abort the
/// whole batch at the first bad row.
#[derive(Clone, Copy, Debug, PartialEq, Eq, Structural)]
pub enum RenderError {
    /// Two declared fonts share one name, so field font references would be
    /// ambiguous.
    DuplicateFontName,
    /// A field names a font that the registry does not hold.
    MissingFont,
    /// A row has no value for a field name the template references.
    MissingFieldValue,
    /// A row has no value for the field that names the output document.
    MissingIdentityValue,
    /// The resolved text holds a character the font metrics cannot measure.
    UnshapeableText,
}

impl RenderError {
    /// A short human-readable description of the failing stage.
    pub fn describe(&self) -> (r: &'static str)
        ensures
            *self is DuplicateFontName ==> r@ == "duplicate font name"@,
            *self is MissingFont ==> r@ == "missing font"@,
            *self is MissingFieldValue ==> r@ == "no value found"@,
            *self is MissingIdentityValue ==> r@ == "no name"@,
            *self is UnshapeableText ==> r@ == "unshapeable text"@,
    {
        match self {
            RenderError::DuplicateFontName => "duplicate font name",
            RenderError::MissingFont => "missing font",
            RenderError::MissingFieldValue => "no value found",
            RenderError::MissingIdentityValue => "no name",
            RenderError::UnshapeableText => "unshapeable text",
        }
    }
}

} // verus!
