//! The text measurer: the rendered horizontal extent of a string set in a
//! font at a nominal point size, in page micrometers. The text is split into
//! per-character shaping units, each unit's advance is read from the font's
//! metrics table, and the sum is scaled from font units to page units. The
//! measurement is a pure function of `(metrics, text, size)`: the same inputs
//! always yield the same width.

use vstd::prelude::*;
use vstd::arithmetic::div_mod::lemma_div_is_ordered;
use vstd::arithmetic::div_mod::lemma_div_nonincreasing;
use vstd::arithmetic::mul::lemma_mul_inequality;
use vstd::string::StrSliceExecFns;
use crate::config::MAX_SIZE_PT;
use crate::error::RenderError;
use crate::fonts::{FontMetrics, MAX_ADVANCE, lemma_advance_bound, spec_advance};

verus! {

/// The longest text one field may render; keeps the advance sum within
/// machine bounds.
pub const MAX_TEXT_LEN: usize = 10000;

/// Scale factor from `advance sum x nominal size` to page micrometers:
/// the nominal point size is converted to a pixel size by the shaping
/// backend's fixed divisor 2.75 (= 11/4), and pixel widths map onto page
/// millimeters, i.e. 1000 micrometers each, so the combined factor is
/// 4000/11 per font unit square.
pub const WIDTH_SCALE_NUM: u64 = 4000;

/// Denominator of the nominal-size scale factor; see `WIDTH_SCALE_NUM`.
pub const WIDTH_SCALE_DEN: u64 = 11;

/// No measured width exceeds this bound (in micrometers), given the caps on
/// text length, advance width and point size.
pub const MAX_WIDTH_UM: u64 = 2621400000000000;

/// The summed advance of `text` over an advance table, in font units, or
/// `None` as soon as one character has no entry.
pub open spec fn spec_advance_sum(advances: Seq<(char, u32)>, text: Seq<char>) -> Option<int>
    decreases text.len(),
{
    if text.len() == 0 {
        Some(0)
    } else {
        match spec_advance(advances, text[0]) {
            None => None,
            Some(a) => match spec_advance_sum(advances, text.drop_first()) {
                None => None,
                Some(s) => Some(a + s),
            },
        }
    }
}

/// Appending one character adds exactly that character's advance, and an
/// unshapeable character poisons the sum.
pub proof fn lemma_advance_sum_push(advances: Seq<(char, u32)>, text: Seq<char>, c: char)
    ensures
        spec_advance_sum(advances, text.push(c)) == (match (
            spec_advance_sum(advances, text),
            spec_advance(advances, c),
        ) {
            (Some(s), Some(a)) => Some(s + a),
            _ => None::<int>,
        }),
    decreases text.len(),
{
    if text.len() == 0 {
        assert(text.push(c)[0] == c);
        assert(text.push(c).drop_first() =~= Seq::<char>::empty());
    } else {
        assert(text.push(c)[0] == text[0]);
        assert(text.push(c).drop_first() =~= text.drop_first().push(c));
        lemma_advance_sum_push(advances, text.drop_first(), c);
    }
}

/// The advance sum distributes over concatenation: both halves shape
/// exactly when the whole does, and their sums add up.
pub proof fn lemma_advance_sum_concat(advances: Seq<(char, u32)>, a: Seq<char>, b: Seq<char>)
    ensures
        spec_advance_sum(advances, a + b) == (match (
            spec_advance_sum(advances, a),
            spec_advance_sum(advances, b),
        ) {
            (Some(x), Some(y)) => Some(x + y),
            _ => None::<int>,
        }),
    decreases a.len(),
{
    if a.len() == 0 {
        assert(a + b =~= b);
    } else {
        assert((a + b)[0] == a[0]);
        assert((a + b).drop_first() =~= a.drop_first() + b);
        lemma_advance_sum_concat(advances, a.drop_first(), b);
    }
}

/// One unshapeable character anywhere in the text makes the whole sum
/// undefined.
pub proof fn lemma_advance_sum_none(advances: Seq<(char, u32)>, text: Seq<char>, i: int)
    requires
        0 <= i < text.len(),
        spec_advance(advances, text[i]) is None,
    ensures
        spec_advance_sum(advances, text) is None,
    decreases text.len(),
{
    if i > 0 {
        assert(text.drop_first()[i - 1] == text[i]);
        lemma_advance_sum_none(advances, text.drop_first(), i - 1);
    }
}

/// Over a bounded table the advance sum is nonnegative and grows at most
/// linearly with the text length.
pub proof fn lemma_advance_sum_bound(advances: Seq<(char, u32)>, text: Seq<char>)
    requires
        forall|i: int| 0 <= i < advances.len() ==> (#[trigger] advances[i]).1 <= MAX_ADVANCE,
    ensures
        spec_advance_sum(advances, text) matches Some(s) ==> 0 <= s <= text.len() * MAX_ADVANCE,
    decreases text.len(),
{
    if text.len() > 0 {
        lemma_advance_bound(advances, text[0]);
        lemma_advance_sum_bound(advances, text.drop_first());
    }
}

/// The width of `text` set in a font with metrics `m` at `size` points, in
/// page micrometers; `None` when some character cannot be shaped.
pub open spec fn spec_measure(m: FontMetrics, text: Seq<char>, size: u32) -> Option<int> {
    match spec_advance_sum(m.advances@, text) {
        None => None,
        Some(s) => Some(
            (s * (size as int) * (WIDTH_SCALE_NUM as int)) / ((m.units_per_em as int)
                * (WIDTH_SCALE_DEN as int)),
        ),
    }
}

/// Measures the rendered horizontal extent of `text` in the font whose
/// metrics are `m`, at `size` points. Returns the width in page micrometers;
/// fails with `UnshapeableText` exactly when some character of `text` has no
/// advance entry.
pub fn measure(m: &FontMetrics, text: &str, size: u32) -> (r: Result<u64, RenderError>)
    requires
        m.wf(),
        1 <= size <= MAX_SIZE_PT,
        text@.len() <= MAX_TEXT_LEN,
    ensures
        match r {
            Ok(w) => spec_measure(*m, text@, size) == Some(w as int) && w <= MAX_WIDTH_UM,
            Err(e) => e == RenderError::UnshapeableText && spec_measure(*m, text@, size) is None,
        },
{
    let n = text.unicode_len();
    let mut sum: u64 = 0;
    let mut i: usize = 0;
    proof {
        assert(text@.take(0) =~= Seq::<char>::empty());
    }
    while i < n
        invariant
            m.wf(),
            n == text@.len(),
            n <= MAX_TEXT_LEN,
            i <= n,
            spec_advance_sum(m.advances@, text@.take(i as int)) == Some(sum as int),
            sum <= i * MAX_ADVANCE,
        decreases n - i,
    {
        let c = text.get_char(i);
        match m.advance(c) {
            None => {
                proof {
                    lemma_advance_sum_none(m.advances@, text@, i as int);
                }
                return Err(RenderError::UnshapeableText);
            },
            Some(a) => {
                proof {
                    lemma_advance_bound(m.advances@, c);
                    lemma_advance_sum_push(m.advances@, text@.take(i as int), c);
                    assert(text@.take(i as int).push(c) =~= text@.take(i as int + 1));
                }
                sum = sum + a as u64;
                i = i + 1;
            },
        }
    }
    proof {
        assert(text@.take(n as int) =~= text@);
        assert(sum <= MAX_TEXT_LEN * MAX_ADVANCE);
        assert(sum * (size as u64) <= 655350000 * 1000) by (nonlinear_arith)
            requires
                sum <= 655350000,
                size <= 1000,
        ;
    }
    let scaled: u64 = sum * (size as u64) * WIDTH_SCALE_NUM;
    let den: u64 = (m.units_per_em as u64) * WIDTH_SCALE_DEN;
    let w: u64 = scaled / den;
    proof {
        lemma_div_nonincreasing(scaled as int, den as int);
    }
    Ok(w)
}

/// Measurement is monotonic in the text: extending a text never shrinks its
/// measured width, and a text measures whenever an extension of it does.
/// Determinism needs no lemma: the measured width is the value of the pure
/// function `spec_measure` of `(metrics, text, size)` alone.
pub proof fn lemma_measure_monotonic(m: FontMetrics, text: Seq<char>, ext: Seq<char>, size: u32)
    requires
        m.wf(),
    ensures
        spec_measure(m, text + ext, size) is Some ==> spec_measure(m, text, size) is Some,
        (match (spec_measure(m, text + ext, size), spec_measure(m, text, size)) {
            (Some(we), Some(w)) => w <= we,
            _ => true,
        }),
{
    lemma_advance_sum_concat(m.advances@, text, ext);
    if spec_advance_sum(m.advances@, text + ext) is Some {
        let s = spec_advance_sum(m.advances@, text)->0;
        let se = spec_advance_sum(m.advances@, text + ext)->0;
        lemma_advance_sum_bound(m.advances@, text);
        lemma_advance_sum_bound(m.advances@, ext);
        assert(s <= se);
        lemma_mul_inequality(s, se, size as int);
        lemma_mul_inequality(s * (size as int), se * (size as int), WIDTH_SCALE_NUM as int);
        lemma_div_is_ordered(
            s * (size as int) * (WIDTH_SCALE_NUM as int),
            se * (size as int) * (WIDTH_SCALE_NUM as int),
            (m.units_per_em as int) * (WIDTH_SCALE_DEN as int),
        );
    }
}

} // verus!
