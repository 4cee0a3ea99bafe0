//! The per-row and per-batch orchestration: one fully laid-out row becomes
//! one output document, named after the template title and the row's
//! identity value. Rows are processed strictly in order and the first fatal
//! error aborts the whole batch: on an error no row output is handed back
//! at all, so nothing is ever flushed for a failed batch.

use vstd::prelude::*;
use vstd::string::StringExecFns;
use crate::config::Config;
use crate::error::RenderError;
use crate::fonts::{FontRegistry, spec_lookup};
use crate::layout::{
    PlacementInstruction, layout_row, lemma_layout_row_err, placements_view, spec_layout_row,
};
use crate::resolve::{Row, spec_row_get};

verus! {

/// Everything the document writer needs for one row: the output file's
/// name and the placements to apply, in template order.
#[derive(Clone, Debug)]
pub struct RowOutput {
    pub filename: String,
    pub instructions: Vec<PlacementInstruction>,
}

/// The mathematical content of one row's output:
/// `(filename, placements)`.
pub open spec fn row_output_view(o: RowOutput) -> (
    Seq<char>,
    Seq<(Seq<char>, u32, int, int, Seq<char>)>,
) {
    (o.filename@, placements_view(o.instructions@))
}

/// The outputs of a whole batch, row by row.
pub open spec fn outputs_view(v: Seq<RowOutput>) -> Seq<
    (Seq<char>, Seq<(Seq<char>, u32, int, int, Seq<char>)>),
> {
    v.map_values(|o: RowOutput| row_output_view(o))
}

/// The name of a row's output document: the template title, a separator,
/// and the row's value under the identity field, with the document
/// extension — or an error when the row lacks that value.
pub open spec fn spec_filename(title: Seq<char>, row: Row, identity: Seq<char>) -> Result<
    Seq<char>,
    RenderError,
> {
    match spec_row_get(row.entries@, identity) {
        None => Err(RenderError::MissingIdentityValue),
        Some(v) => Ok(title + "-"@ + v + ".pdf"@),
    }
}

/// Builds the output filename for one row, per `spec_filename`.
pub fn output_filename(title: &String, row: &Row, identity: &String) -> (r: Result<
    String,
    RenderError,
>)
    ensures
        match r {
            Ok(f) => spec_filename(title@, *row, identity@) == Ok::<Seq<char>, RenderError>(f@),
            Err(e) => spec_filename(title@, *row, identity@) == Err::<Seq<char>, RenderError>(e),
        },
{
    match row.get(identity) {
        None => Err(RenderError::MissingIdentityValue),
        Some(v) => {
            let mut f = title.clone();
            f.append("-");
            f.append(v.as_str());
            f.append(".pdf");
            Ok(f)
        },
    }
}

/// What one row renders to: its placements and its output filename, or the
/// first fatal error — a field error before a missing identity value, as
/// the fields are laid out first.
pub open spec fn spec_render_row(config: Config, reg: FontRegistry, row: Row, identity: Seq<char>) -> Result<
    (Seq<char>, Seq<(Seq<char>, u32, int, int, Seq<char>)>),
    RenderError,
> {
    match spec_layout_row(config.texts@, row, reg) {
        Err(e) => Err(e),
        Ok(instrs) => match spec_filename(config.title@, row, identity) {
            Err(e) => Err(e),
            Ok(f) => Ok((f, instrs)),
        },
    }
}

/// Renders one row completely: lays every field out, then names the output
/// document after the row's identity value, per `spec_render_row`.
pub fn render_row(config: &Config, reg: &FontRegistry, row: &Row, identity: &String) -> (r: Result<
    RowOutput,
    RenderError,
>)
    requires
        config.wf(),
        reg.wf(),
        row.wf(),
    ensures
        match r {
            Ok(o) => spec_render_row(*config, *reg, *row, identity@) == Ok::<
                (Seq<char>, Seq<(Seq<char>, u32, int, int, Seq<char>)>),
                RenderError,
            >(row_output_view(o)),
            Err(e) => spec_render_row(*config, *reg, *row, identity@) == Err::<
                (Seq<char>, Seq<(Seq<char>, u32, int, int, Seq<char>)>),
                RenderError,
            >(e),
        },
{
    match layout_row(&config.texts, row, reg) {
        Err(e) => Err(e),
        Ok(instructions) => match output_filename(&config.title, row, identity) {
            Err(e) => Err(e),
            Ok(filename) => Ok(RowOutput { filename, instructions }),
        },
    }
}

/// What a whole batch renders to: one output per row, in row order, or the
/// first row's first fatal error — and then no output at all.
pub open spec fn spec_render_batch(
    config: Config,
    reg: FontRegistry,
    rows: Seq<Row>,
    identity: Seq<char>,
) -> Result<Seq<(Seq<char>, Seq<(Seq<char>, u32, int, int, Seq<char>)>)>, RenderError>
    decreases rows.len(),
{
    if rows.len() == 0 {
        Ok(Seq::empty())
    } else {
        match spec_render_batch(config, reg, rows.drop_last(), identity) {
            Err(e) => Err(e),
            Ok(s) => match spec_render_row(config, reg, rows.last(), identity) {
                Err(e) => Err(e),
                Ok(o) => Ok(s.push(o)),
            },
        }
    }
}

/// An error in any prefix of the row list is the whole batch's error.
pub proof fn lemma_render_batch_err(
    config: Config,
    reg: FontRegistry,
    rows: Seq<Row>,
    identity: Seq<char>,
    k: int,
)
    requires
        0 <= k <= rows.len(),
        spec_render_batch(config, reg, rows.take(k), identity) is Err,
    ensures
        spec_render_batch(config, reg, rows, identity) == spec_render_batch(
            config,
            reg,
            rows.take(k),
            identity,
        ),
    decreases rows.len() - k,
{
    if k < rows.len() {
        assert(rows.take(k + 1).drop_last() =~= rows.take(k));
        lemma_render_batch_err(config, reg, rows, identity, k + 1);
    } else {
        assert(rows.take(k) =~= rows);
    }
}

/// Renders a whole batch, one row after the other, per `spec_render_batch`:
/// all rows fully resolved, or the first fatal error and no output.
pub fn render_batch(
    config: &Config,
    reg: &FontRegistry,
    rows: &Vec<Row>,
    identity: &String,
) -> (r: Result<Vec<RowOutput>, RenderError>)
    requires
        config.wf(),
        reg.wf(),
        forall|i: int| 0 <= i < rows@.len() ==> (#[trigger] rows@[i]).wf(),
    ensures
        match r {
            Ok(v) => spec_render_batch(*config, *reg, rows@, identity@) == Ok::<
                Seq<(Seq<char>, Seq<(Seq<char>, u32, int, int, Seq<char>)>)>,
                RenderError,
            >(outputs_view(v@)),
            Err(e) => spec_render_batch(*config, *reg, rows@, identity@) == Err::<
                Seq<(Seq<char>, Seq<(Seq<char>, u32, int, int, Seq<char>)>)>,
                RenderError,
            >(e),
        },
{
    let mut out: Vec<RowOutput> = Vec::new();
    let n = rows.len();
    let mut i: usize = 0;
    proof {
        assert(rows@.take(0) =~= Seq::<Row>::empty());
        assert(outputs_view(out@) =~= Seq::<
            (Seq<char>, Seq<(Seq<char>, u32, int, int, Seq<char>)>),
        >::empty());
    }
    while i < n
        invariant
            n == rows@.len(),
            i <= n,
            config.wf(),
            reg.wf(),
            forall|k: int| 0 <= k < rows@.len() ==> (#[trigger] rows@[k]).wf(),
            spec_render_batch(*config, *reg, rows@.take(i as int), identity@) == Ok::<
                Seq<(Seq<char>, Seq<(Seq<char>, u32, int, int, Seq<char>)>)>,
                RenderError,
            >(outputs_view(out@)),
        decreases n - i,
    {
        proof {
            assert(rows@.take(i as int + 1).drop_last() =~= rows@.take(i as int));
            assert(rows@.take(i as int + 1).last() == rows@[i as int]);
        }
        match render_row(config, reg, &rows[i], identity) {
            Err(e) => {
                proof {
                    lemma_render_batch_err(*config, *reg, rows@, identity@, i as int + 1);
                }
                return Err(e);
            },
            Ok(o) => {
                let ghost old_out = out@;
                out.push(o);
                proof {
                    assert(outputs_view(out@) =~= outputs_view(old_out).push(
                        row_output_view(out@.last()),
                    ));
                }
                i = i + 1;
            },
        }
    }
    proof {
        assert(rows@.take(n as int) =~= rows@);
    }
    Ok(out)
}

/// The batch-level font check: every field's font reference must resolve in
/// the registry before any row is processed; succeeds exactly when all do.
pub fn validate_fonts(config: &Config, reg: &FontRegistry) -> (r: Result<(), RenderError>)
    ensures
        r is Ok <==> (forall|i: int|
            0 <= i < config.texts@.len() ==> spec_lookup(
                reg.fonts@,
                (#[trigger] config.texts@[i]).font@,
            ) is Some),
        r matches Err(e) ==> e == RenderError::MissingFont,
{
    let n = config.texts.len();
    let mut i: usize = 0;
    while i < n
        invariant
            n == config.texts@.len(),
            i <= n,
            forall|k: int|
                0 <= k < i ==> spec_lookup(
                    reg.fonts@,
                    (#[trigger] config.texts@[k]).font@,
                ) is Some,
        decreases n - i,
    {
        if reg.lookup(&config.texts[i].font).is_none() {
            return Err(RenderError::MissingFont);
        }
        i = i + 1;
    }
    Ok(())
}

/// A row without a value under the identity field aborts the whole batch:
/// whatever the other rows hold, the batch renders to an error, and no
/// output — no filename, no placement — is produced for any row.
pub proof fn lemma_missing_identity_aborts(
    config: Config,
    reg: FontRegistry,
    rows: Seq<Row>,
    identity: Seq<char>,
    i: int,
)
    requires
        0 <= i < rows.len(),
        spec_row_get(rows[i].entries@, identity) is None,
    ensures
        spec_render_batch(config, reg, rows, identity) is Err,
    decreases rows.len(),
{
    if i == rows.len() - 1 {
        assert(spec_render_row(config, reg, rows.last(), identity) is Err);
    } else {
        assert(rows.drop_last()[i] == rows[i]);
        lemma_missing_identity_aborts(config, reg, rows.drop_last(), identity, i);
    }
}

} // verus!
