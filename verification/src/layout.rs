//! The layout engine: for each field of a template, in order, resolve the
//! text, measure it, and compute the final anchored page position. A field's
//! `(x, y)` anchor designates the horizontal center of the text and its
//! baseline: the emitted cursor is pulled left by half the measured width,
//! while `y` is used directly with no vertical compensation.

use vstd::prelude::*;
use crate::config::Text;
use crate::error::RenderError;
use crate::fonts::{FontRegistry, spec_lookup};
use crate::measure::{measure, spec_measure};
use crate::resolve::{Row, resolve, spec_resolve};
use crate::{COORD_SCALE, PAGE_HEIGHT_UM, PAGE_WIDTH_UM};

verus! {

/// One fully resolved, render-ready placement: which font and size to set,
/// where to put the text cursor (in page micrometers, `center_x` being the
/// left edge after centering), and the literal text. No further
/// interpretation is needed downstream.
#[derive(Clone, Debug)]
pub struct PlacementInstruction {
    /// Declared name of the font to render with.
    pub font_name: String,
    /// Nominal size in points.
    pub size_pt: u32,
    /// Horizontal cursor position in micrometers: the anchor minus half the
    /// measured text width, so the anchor ends up at the text's center.
    pub center_x: i64,
    /// The text baseline in micrometers, taken directly from the anchor.
    pub baseline_y: i64,
    /// The literal text to render.
    pub text: String,
}

/// The mathematical content of a placement:
/// `(font name, size, cursor x, baseline y, text)`.
pub open spec fn placement_view(p: PlacementInstruction) -> (Seq<char>, u32, int, int, Seq<char>) {
    (p.font_name@, p.size_pt, p.center_x as int, p.baseline_y as int, p.text@)
}

/// The placements of a whole row, field by field.
pub open spec fn placements_view(v: Seq<PlacementInstruction>) -> Seq<
    (Seq<char>, u32, int, int, Seq<char>),
> {
    v.map_values(|p: PlacementInstruction| placement_view(p))
}

/// The absolute horizontal anchor of fraction `x`, in micrometers.
pub open spec fn spec_abs_x(x: u32) -> int {
    (PAGE_WIDTH_UM as int) * (x as int) / (COORD_SCALE as int)
}

/// The absolute vertical anchor of fraction `y`, in micrometers.
pub open spec fn spec_abs_y(y: u32) -> int {
    (PAGE_HEIGHT_UM as int) * (y as int) / (COORD_SCALE as int)
}

/// The horizontally centered cursor position for an anchor fraction `x` and
/// a measured width `w`.
pub open spec fn spec_center_x(x: u32, w: int) -> int {
    spec_abs_x(x) - w / 2
}

/// Centering: the emitted cursor position plus half the measured width lands
/// exactly on the absolute anchor, for every anchor fraction and width.
pub proof fn lemma_centering(x: u32, w: int)
    ensures
        spec_center_x(x, w) + w / 2 == spec_abs_x(x),
{
}

/// What laying one field out on one row yields: the first missing piece
/// aborts (font, then field value, then shaping); a skipped conditional
/// field yields nothing; otherwise one placement with the resolved text,
/// the field's font and size, the centered cursor and the anchor baseline.
pub open spec fn spec_layout_field(field: Text, row: Row, reg: FontRegistry) -> Result<
    Option<(Seq<char>, u32, int, int, Seq<char>)>,
    RenderError,
> {
    match spec_lookup(reg.fonts@, field.font@) {
        None => Err(RenderError::MissingFont),
        Some(f) => match spec_resolve(field, row) {
            Err(e) => Err(e),
            Ok(None) => Ok(None),
            Ok(Some(t)) => match spec_measure(f.metrics, t, field.size) {
                None => Err(RenderError::UnshapeableText),
                Some(w) => Ok(
                    Some(
                        (field.font@, field.size, spec_center_x(field.x, w), spec_abs_y(field.y), t),
                    ),
                ),
            },
        },
    }
}

/// Lays one field out on one row: resolves the font and the text, measures
/// the text, and computes the anchored position, per `spec_layout_field`.
pub fn layout_field(field: &Text, row: &Row, reg: &FontRegistry) -> (r: Result<
    Option<PlacementInstruction>,
    RenderError,
>)
    requires
        field.wf(),
        row.wf(),
        reg.wf(),
    ensures
        match r {
            Ok(Some(p)) => spec_layout_field(*field, *row, *reg) == Ok::<
                Option<(Seq<char>, u32, int, int, Seq<char>)>,
                RenderError,
            >(Some(placement_view(p))),
            Ok(None) => spec_layout_field(*field, *row, *reg) == Ok::<
                Option<(Seq<char>, u32, int, int, Seq<char>)>,
                RenderError,
            >(None),
            Err(e) => spec_layout_field(*field, *row, *reg) == Err::<
                Option<(Seq<char>, u32, int, int, Seq<char>)>,
                RenderError,
            >(e),
        },
{
    let f = match reg.lookup(&field.font) {
        None => {
            return Err(RenderError::MissingFont);
        },
        Some(f) => f,
    };
    proof {
        let i = choose|i: int| 0 <= i < reg.fonts@.len() && *f == reg.fonts@[i];
        assert(reg.fonts@[i].metrics.wf());
    }
    match resolve(field, row) {
        Err(e) => Err(e),
        Ok(None) => Ok(None),
        Ok(Some(text)) => {
            match measure(&f.metrics, text.as_str(), field.size) {
                Err(e) => Err(e),
                Ok(w) => {
                    let abs_x: u64 = PAGE_WIDTH_UM * (field.x as u64) / COORD_SCALE;
                    let abs_y: u64 = PAGE_HEIGHT_UM * (field.y as u64) / COORD_SCALE;
                    let half: u64 = w / 2;
                    let center_x: i64 = abs_x as i64 - half as i64;
                    let baseline_y: i64 = abs_y as i64;
                    Ok(
                        Some(
                            PlacementInstruction {
                                font_name: field.font.clone(),
                                size_pt: field.size,
                                center_x,
                                baseline_y,
                                text,
                            },
                        ),
                    )
                },
            }
        },
    }
}

/// What laying a whole field list out on one row yields: the placements of
/// the non-skipped fields in template order, or the first field's error. A
/// row either fully resolves or aborts as a whole.
pub open spec fn spec_layout_row(texts: Seq<Text>, row: Row, reg: FontRegistry) -> Result<
    Seq<(Seq<char>, u32, int, int, Seq<char>)>,
    RenderError,
>
    decreases texts.len(),
{
    if texts.len() == 0 {
        Ok(Seq::empty())
    } else {
        match spec_layout_row(texts.drop_last(), row, reg) {
            Err(e) => Err(e),
            Ok(s) => match spec_layout_field(texts.last(), row, reg) {
                Err(e) => Err(e),
                Ok(None) => Ok(s),
                Ok(Some(p)) => Ok(s.push(p)),
            },
        }
    }
}

/// An error in any prefix of the field list is the whole list's error.
pub proof fn lemma_layout_row_err(texts: Seq<Text>, row: Row, reg: FontRegistry, k: int)
    requires
        0 <= k <= texts.len(),
        spec_layout_row(texts.take(k), row, reg) is Err,
    ensures
        spec_layout_row(texts, row, reg) == spec_layout_row(texts.take(k), row, reg),
    decreases texts.len() - k,
{
    if k < texts.len() {
        assert(texts.take(k + 1).drop_last() =~= texts.take(k));
        lemma_layout_row_err(texts, row, reg, k + 1);
    } else {
        assert(texts.take(k) =~= texts);
    }
}

/// Lays every field of a template out on one row, in template order,
/// per `spec_layout_row`: one placement per rendered field, or the first
/// fatal field error.
pub fn layout_row(texts: &Vec<Text>, row: &Row, reg: &FontRegistry) -> (r: Result<
    Vec<PlacementInstruction>,
    RenderError,
>)
    requires
        forall|i: int| 0 <= i < texts@.len() ==> (#[trigger] texts@[i]).wf(),
        row.wf(),
        reg.wf(),
    ensures
        match r {
            Ok(v) => spec_layout_row(texts@, *row, *reg) == Ok::<
                Seq<(Seq<char>, u32, int, int, Seq<char>)>,
                RenderError,
            >(placements_view(v@)),
            Err(e) => spec_layout_row(texts@, *row, *reg) == Err::<
                Seq<(Seq<char>, u32, int, int, Seq<char>)>,
                RenderError,
            >(e),
        },
{
    let mut out: Vec<PlacementInstruction> = Vec::new();
    let n = texts.len();
    let mut i: usize = 0;
    proof {
        assert(texts@.take(0) =~= Seq::<Text>::empty());
        assert(placements_view(out@) =~= Seq::<(Seq<char>, u32, int, int, Seq<char>)>::empty());
    }
    while i < n
        invariant
            n == texts@.len(),
            i <= n,
            forall|k: int| 0 <= k < texts@.len() ==> (#[trigger] texts@[k]).wf(),
            row.wf(),
            reg.wf(),
            spec_layout_row(texts@.take(i as int), *row, *reg) == Ok::<
                Seq<(Seq<char>, u32, int, int, Seq<char>)>,
                RenderError,
            >(placements_view(out@)),
        decreases n - i,
    {
        proof {
            assert(texts@.take(i as int + 1).drop_last() =~= texts@.take(i as int));
            assert(texts@.take(i as int + 1).last() == texts@[i as int]);
        }
        match layout_field(&texts[i], row, reg) {
            Err(e) => {
                proof {
                    lemma_layout_row_err(texts@, *row, *reg, i as int + 1);
                }
                return Err(e);
            },
            Ok(None) => {
                i = i + 1;
            },
            Ok(Some(p)) => {
                let ghost old_out = out@;
                out.push(p);
                proof {
                    assert(placements_view(out@) =~= placements_view(old_out).push(
                        placement_view(out@.last()),
                    ));
                }
                i = i + 1;
            },
        }
    }
    proof {
        assert(texts@.take(n as int) =~= texts@);
    }
    Ok(out)
}

} // verus!
