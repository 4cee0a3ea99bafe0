//! The font registry: fonts loaded once per batch, keyed by declared name,
//! then shared read-only by every row. A font is held here as the plain
//! metric data the measurer reads — its advance-width table in font units —
//! extracted from the font file outside this crate.

use vstd::prelude::*;
use crate::error::RenderError;

verus! {

/// The largest advance width (in font units) a well-formed metrics table may
/// hold; keeps width sums within machine bounds.
pub const MAX_ADVANCE: u32 = 65535;

/// The measurable metric content of one font: the size of its internal unit
/// square, and the horizontal advance of each supported character in those
/// units. Characters absent from the table cannot be shaped.
#[derive(Clone, Debug)]
pub struct FontMetrics {
    /// Font units per em square; every advance is relative to this scale.
    pub units_per_em: u32,
    /// `(character, advance width in font units)`, looked up by first match.
    pub advances: Vec<(char, u32)>,
}

/// The advance width of `c` in an advance table: the first entry for `c`,
/// or `None` when the table has no entry for it.
pub open spec fn spec_advance(advances: Seq<(char, u32)>, c: char) -> Option<u32>
    decreases advances.len(),
{
    if advances.len() == 0 {
        None
    } else if advances[0].0 == c {
        Some(advances[0].1)
    } else {
        spec_advance(advances.drop_first(), c)
    }
}

/// In a well-formed table every advance the lookup can return is bounded.
pub proof fn lemma_advance_bound(advances: Seq<(char, u32)>, c: char)
    requires
        forall|i: int| 0 <= i < advances.len() ==> (#[trigger] advances[i]).1 <= MAX_ADVANCE,
    ensures
        spec_advance(advances, c) matches Some(a) ==> a <= MAX_ADVANCE,
    decreases advances.len(),
{
    if advances.len() == 0 {
    } else if advances[0].0 == c {
        assert(advances[0].1 <= MAX_ADVANCE);
    } else {
        assert(forall|i: int|
            0 <= i < advances.drop_first().len() ==> (#[trigger] advances.drop_first()[i]).1
                <= MAX_ADVANCE);
        lemma_advance_bound(advances.drop_first(), c);
    }
}

impl FontMetrics {
    /// A usable metrics table has a positive unit square and bounded
    /// advances.
    pub open spec fn wf(&self) -> bool {
        &&& 1 <= self.units_per_em
        &&& forall|i: int|
            0 <= i < self.advances@.len() ==> (#[trigger] self.advances@[i]).1 <= MAX_ADVANCE
    }

    /// The advance width of `c`, by first match in the table.
    pub fn advance(&self, c: char) -> (r: Option<u32>)
        ensures
            r == spec_advance(self.advances@, c),
    {
        let n = self.advances.len();
        let mut i: usize = 0;
        proof {
            assert(self.advances@.skip(0) =~= self.advances@);
        }
        while i < n
            invariant
                n == self.advances@.len(),
                i <= n,
                spec_advance(self.advances@.skip(i as int), c) == spec_advance(self.advances@, c),
            decreases n - i,
        {
            let (ch, adv) = self.advances[i];
            if ch == c {
                proof {
                    assert(self.advances@.skip(i as int)[0] == self.advances@[i as int]);
                }
                return Some(adv);
            }
            proof {
                assert(self.advances@.skip(i as int)[0] == self.advances@[i as int]);
                assert(self.advances@.skip(i as int).drop_first() =~= self.advances@.skip(
                    i as int + 1,
                ));
            }
            i = i + 1;
        }
        proof {
            assert(self.advances@.skip(n as int) =~= Seq::<(char, u32)>::empty());
        }
        None
    }
}

/// One loaded font: its declared name and the metric data read from its
/// file. Owned by the registry for the whole batch.
#[derive(Clone, Debug)]
pub struct LoadedFont {
    pub name: String,
    pub metrics: FontMetrics,
}

/// The font a name resolves to: the first loaded font declared under that
/// name, or `None` when no font carries it.
pub open spec fn spec_lookup(fonts: Seq<LoadedFont>, name: Seq<char>) -> Option<LoadedFont>
    decreases fonts.len(),
{
    if fonts.len() == 0 {
        None
    } else if fonts[0].name@ == name {
        Some(fonts[0])
    } else {
        spec_lookup(fonts.drop_first(), name)
    }
}

/// The read-only registry of all fonts a template declares, loaded once
/// before any row is processed.
#[derive(Clone, Debug)]
pub struct FontRegistry {
    pub fonts: Vec<LoadedFont>,
}

impl FontRegistry {
    /// Every font in a well-formed registry carries well-formed metrics.
    pub open spec fn wf(&self) -> bool {
        forall|i: int| 0 <= i < self.fonts@.len() ==> (#[trigger] self.fonts@[i]).metrics.wf()
    }

    /// Builds a registry from loaded fonts, refusing a set in which two
    /// fonts share a name: succeeds exactly when all names are distinct, and
    /// then holds the fonts unchanged, in declaration order.
    pub fn build(fonts: Vec<LoadedFont>) -> (r: Result<FontRegistry, RenderError>)
        ensures
            match r {
                Ok(reg) => reg.fonts == fonts && (forall|i: int, j: int|
                    0 <= i < j < fonts@.len() ==> (#[trigger] fonts@[i]).name@ != (
                    #[trigger] fonts@[j]).name@),
                Err(e) => e == RenderError::DuplicateFontName && (exists|i: int, j: int|
                    0 <= i < j < fonts@.len() && (#[trigger] fonts@[i]).name@ == (
                    #[trigger] fonts@[j]).name@),
            },
    {
        let n = fonts.len();
        let mut i: usize = 0;
        while i < n
            invariant
                n == fonts@.len(),
                i <= n,
                forall|p: int, q: int|
                    0 <= p < q < fonts@.len() && p < i ==> (#[trigger] fonts@[p]).name@ != (
                    #[trigger] fonts@[q]).name@,
            decreases n - i,
        {
            let mut j: usize = i + 1;
            while j < n
                invariant
                    n == fonts@.len(),
                    i < n,
                    i < j <= n,
                    forall|q: int|
                        i < q < j ==> fonts@[i as int].name@ != (#[trigger] fonts@[q]).name@,
                decreases n - j,
            {
                if fonts[i].name == fonts[j].name {
                    return Err(RenderError::DuplicateFontName);
                }
                j = j + 1;
            }
            i = i + 1;
        }
        Ok(FontRegistry { fonts })
    }

    /// Looks a font up by declared name, by first match.
    pub fn lookup(&self, name: &String) -> (r: Option<&LoadedFont>)
        ensures
            match r {
                Some(f) => spec_lookup(self.fonts@, name@) == Some(*f) && (exists|i: int|
                    0 <= i < self.fonts@.len() && *f == #[trigger] self.fonts@[i]),
                None => spec_lookup(self.fonts@, name@) is None,
            },
    {
        let n = self.fonts.len();
        let mut i: usize = 0;
        proof {
            assert(self.fonts@.skip(0) =~= self.fonts@);
        }
        while i < n
            invariant
                n == self.fonts@.len(),
                i <= n,
                spec_lookup(self.fonts@.skip(i as int), name@) == spec_lookup(
                    self.fonts@,
                    name@,
                ),
            decreases n - i,
        {
            let f = &self.fonts[i];
            if f.name == *name {
                proof {
                    assert(self.fonts@.skip(i as int)[0] == self.fonts@[i as int]);
                    assert(*f == self.fonts@[i as int]);
                }
                return Some(f);
            }
            proof {
                assert(self.fonts@.skip(i as int)[0] == self.fonts@[i as int]);
                assert(self.fonts@.skip(i as int).drop_first() =~= self.fonts@.skip(i as int + 1));
            }
            i = i + 1;
        }
        proof {
            assert(self.fonts@.skip(n as int) =~= Seq::<LoadedFont>::empty());
        }
        None
    }
}

} // verus!
