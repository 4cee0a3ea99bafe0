//! The field resolver: for one data row and one template field, the literal
//! string to render — the row's value verbatim for a plain field, a fixed
//! marker or nothing for a conditional one. A field whose name the row does
//! not carry aborts the row.

use vstd::prelude::*;
use vstd::string::StringExecFns;
use crate::config::Text;
use crate::error::RenderError;
use crate::measure::MAX_TEXT_LEN;

verus! {

/// One record of tabular input data: field names mapped to values, looked
/// up by first match. One row produces one output document.
#[derive(Clone, Debug)]
pub struct Row {
    pub entries: Vec<(String, String)>,
}

/// The value a row holds under `name`: the first entry's value, or `None`
/// when no entry carries that name.
pub open spec fn spec_row_get(entries: Seq<(String, String)>, name: Seq<char>) -> Option<
    Seq<char>,
>
    decreases entries.len(),
{
    if entries.len() == 0 {
        None
    } else if entries[0].0@ == name {
        Some(entries[0].1@)
    } else {
        spec_row_get(entries.drop_first(), name)
    }
}

impl Row {
    /// A well-formed row keeps every value within the measurable length.
    pub open spec fn wf(&self) -> bool {
        forall|i: int|
            0 <= i < self.entries@.len() ==> (#[trigger] self.entries@[i]).1@.len()
                <= MAX_TEXT_LEN
    }

    /// Looks a field value up by name, by first match.
    pub fn get(&self, name: &String) -> (r: Option<&String>)
        ensures
            match r {
                Some(v) => spec_row_get(self.entries@, name@) == Some(v@) && (exists|i: int|
                    0 <= i < self.entries@.len() && *v == (#[trigger] self.entries@[i]).1),
                None => spec_row_get(self.entries@, name@) is None,
            },
    {
        let n = self.entries.len();
        let mut i: usize = 0;
        proof {
            assert(self.entries@.skip(0) =~= self.entries@);
        }
        while i < n
            invariant
                n == self.entries@.len(),
                i <= n,
                spec_row_get(self.entries@.skip(i as int), name@) == spec_row_get(
                    self.entries@,
                    name@,
                ),
            decreases n - i,
        {
            let e = &self.entries[i];
            if e.0 == *name {
                proof {
                    assert(self.entries@.skip(i as int)[0] == self.entries@[i as int]);
                    assert(e.1 == self.entries@[i as int].1);
                }
                return Some(&e.1);
            }
            proof {
                assert(self.entries@.skip(i as int)[0] == self.entries@[i as int]);
                assert(self.entries@.skip(i as int).drop_first() =~= self.entries@.skip(
                    i as int + 1,
                ));
            }
            i = i + 1;
        }
        proof {
            assert(self.entries@.skip(n as int) =~= Seq::<(String, String)>::empty());
        }
        None
    }
}

/// The fixed marker a conditional field renders when its trigger matches:
/// a single check-mark character.
pub open spec fn marker_text() -> Seq<char> {
    seq!['X']
}

/// What a field renders on a row: `Err` when the row lacks the field's
/// name; for a conditional field, the marker on an exact trigger match and
/// nothing otherwise; for a plain field, the row's value verbatim.
pub open spec fn spec_resolve(field: Text, row: Row) -> Result<Option<Seq<char>>, RenderError> {
    match spec_row_get(row.entries@, field.name@) {
        None => Err(RenderError::MissingFieldValue),
        Some(v) => match field.conditional {
            Some(c) => if v == c@ {
                Ok(Some(marker_text()))
            } else {
                Ok(None)
            },
            None => Ok(Some(v)),
        },
    }
}

/// Resolves the literal text `field` renders on `row`, per `spec_resolve`;
/// on a well-formed row every resolved text is measurable.
pub fn resolve(field: &Text, row: &Row) -> (r: Result<Option<String>, RenderError>)
    ensures
        match r {
            Ok(Some(t)) => spec_resolve(*field, *row) == Ok::<Option<Seq<char>>, RenderError>(
                Some(t@),
            ) && (row.wf() ==> t@.len() <= MAX_TEXT_LEN),
            Ok(None) => spec_resolve(*field, *row) == Ok::<Option<Seq<char>>, RenderError>(None),
            Err(e) => spec_resolve(*field, *row) == Err::<Option<Seq<char>>, RenderError>(e),
        },
{
    let value = match row.get(&field.name) {
        None => {
            return Err(RenderError::MissingFieldValue);
        },
        Some(v) => v,
    };
    match &field.conditional {
        Some(c) => {
            if *c == *value {
                let marker = String::from_str("X");
                proof {
                    reveal_strlit("X");
                    assert(marker@ =~= marker_text());
                }
                Ok(Some(marker))
            } else {
                Ok(None)
            }
        },
        None => Ok(Some(value.clone())),
    }
}

/// A plain field (no `conditional`) round-trips the row's value: whenever
/// the row holds a value for the field, that value is rendered verbatim.
pub proof fn lemma_resolve_verbatim(field: Text, row: Row)
    requires
        field.conditional is None,
        spec_row_get(row.entries@, field.name@) is Some,
    ensures
        spec_resolve(field, row) == Ok::<Option<Seq<char>>, RenderError>(
            Some(spec_row_get(row.entries@, field.name@)->0),
        ),
{
}

/// A conditional field renders the fixed marker exactly when the row's
/// value equals the trigger, and is omitted (no text resolved) otherwise.
pub proof fn lemma_resolve_conditional(field: Text, row: Row)
    requires
        field.conditional is Some,
        spec_row_get(row.entries@, field.name@) is Some,
    ensures
        spec_row_get(row.entries@, field.name@)->0 == field.conditional->0@ ==> spec_resolve(
            field,
            row,
        ) == Ok::<Option<Seq<char>>, RenderError>(Some(marker_text())),
        spec_row_get(row.entries@, field.name@)->0 != field.conditional->0@ ==> spec_resolve(
            field,
            row,
        ) == Ok::<Option<Seq<char>>, RenderError>(None),
{
}

} // verus!
