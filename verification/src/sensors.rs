//! Temperature sensors: selecting the CPU-related readings by label and
//! summarizing them into an average, a maximum, and a severity band.

use vstd::prelude::*;
use crate::thresholds::{Band, spec_temp_band, temp_band};

verus! {

/// ASCII case folding on a character's code point: `A` through `Z` fold
/// onto `a` through `z`, everything else is itself. The folding is ASCII
/// only, deliberately: characters whose case pair exists only beyond
/// ASCII (the Kelvin sign, dotted capitals) are left as they are, so a
/// label using one of those does not match. Sensor labels are ASCII in
/// practice, and this keeps the matching fully stated and proved here.
pub open spec fn fold_code(c: char) -> int {
    if 65 <= c as int <= 90 {
        c as int + 32
    } else {
        c as int
    }
}

/// `needle` occurs in `hay` starting at position `i`, comparing characters
/// case-insensitively (ASCII folding).
pub open spec fn matches_at(hay: Seq<char>, needle: Seq<char>, i: int) -> bool {
    forall|j: int| 0 <= j < needle.len() ==> fold_code(hay[i + j]) == fold_code(needle[j])
}

/// `needle` occurs somewhere in `hay`, case-insensitively.
pub open spec fn contains_fold(hay: Seq<char>, needle: Seq<char>) -> bool {
    exists|i: int| 0 <= i && i + needle.len() <= hay.len() && matches_at(hay, needle, i)
}

fn fold_code_exec(c: char) -> (u: u32)
    ensures
        u as int == fold_code(c),
{
    let u = c as u32;
    if 65 <= u && u <= 90 {
        u + 32
    } else {
        u
    }
}

fn matches_at_exec(hay: &str, needle: &str, i: usize) -> (r: bool)
    requires
        i + needle@.len() <= hay@.len(),
        i + needle@.len() <= usize::MAX,
    ensures
        r == matches_at(hay@, needle@, i as int),
{
    let n = needle.unicode_len();
    let mut j: usize = 0;
    while j < n
        invariant
            0 <= j <= n,
            n == needle@.len(),
            i + n <= hay@.len(),
            i + n <= usize::MAX,
            forall|k: int| 0 <= k < j ==> fold_code(hay@[i + k]) == fold_code(needle@[k]),
        decreases n - j,
    {
        let hc = fold_code_exec(hay.get_char(i + j));
        let nc = fold_code_exec(needle.get_char(j));
        if hc != nc {
            return false;
        }
        j = j + 1;
    }
    true
}

/// Case-insensitive substring test, folding ASCII letters only (see
/// `fold_code`).
pub fn contains_ci(hay: &str, needle: &str) -> (r: bool)
    ensures
        r == contains_fold(hay@, needle@),
{
    let hn = hay.unicode_len();
    let nn = needle.unicode_len();
    if nn > hn {
        return false;
    }
    let mut i: usize = 0;
    while i <= hn - nn
        invariant
            0 <= i <= hn - nn + 1,
            nn <= hn,
            hn == hay@.len(),
            nn == needle@.len(),
            forall|p: int| 0 <= p < i ==> !matches_at(hay@, needle@, p),
        decreases hn - nn - i + 1,
    {
        if matches_at_exec(hay, needle, i) {
            return true;
        }
        i = i + 1;
    }
    false
}

/// A sensor label counts as CPU-related if it contains `cpu`, `core`, or
/// `processor`, case-insensitively.
pub open spec fn spec_is_cpu_label(s: Seq<char>) -> bool {
    contains_fold(s, "cpu"@) || contains_fold(s, "core"@) || contains_fold(s, "processor"@)
}

pub fn is_cpu_sensor_label(label: &str) -> (r: bool)
    ensures
        r == spec_is_cpu_label(label@),
{
    contains_ci(label, "cpu") || contains_ci(label, "core") || contains_ci(label, "processor")
}

/// One raw temperature reading: a sensor label and its temperature in
/// millidegrees Celsius (negative readings are possible and are never
/// counted as CPU heat).
pub struct TempReading {
    pub label: String,
    pub milli_c: i64,
}

/// A reading enters the CPU temperature summary only if its label is
/// CPU-related and the reading is strictly positive.
pub open spec fn qualifying(r: TempReading) -> bool {
    spec_is_cpu_label(r.label@) && r.milli_c > 0
}

/// The subsequence of readings that enter the CPU temperature summary.
pub open spec fn qual_seq(s: Seq<TempReading>) -> Seq<TempReading> {
    s.filter(|r: TempReading| qualifying(r))
}

/// Sum of the readings of a sequence, in millidegrees.
pub open spec fn sum_milli(s: Seq<TempReading>) -> int
    decreases s.len(),
{
    if s.len() == 0 {
        0
    } else {
        sum_milli(s.drop_last()) + s.last().milli_c
    }
}

/// Largest reading of a sequence, in millidegrees; 0 for an empty one.
pub open spec fn max_milli(s: Seq<TempReading>) -> int
    decreases s.len(),
{
    if s.len() == 0 {
        0
    } else if s.last().milli_c >= max_milli(s.drop_last()) {
        s.last().milli_c as int
    } else {
        max_milli(s.drop_last())
    }
}

/// The CPU temperature summary: either no qualifying sensor exists, or the
/// average (truncated to millidegrees), maximum, and severity band of the
/// qualifying readings.
#[derive(Clone, Copy, PartialEq, Eq, Structural, Debug)]
pub enum TempSummary {
    NotAvailable,
    Available { avg_milli: u64, max_milli: u64, band: Band },
}

proof fn lemma_sum_milli_bounds(s: Seq<TempReading>)
    requires
        forall|i: int| 0 <= i < s.len() ==> 0 < #[trigger] s[i].milli_c,
    ensures
        0 <= sum_milli(s) <= s.len() * (i64::MAX as int),
        s.len() > 0 ==> 0 < sum_milli(s),
    decreases s.len(),
{
    if s.len() > 0 {
        lemma_sum_milli_bounds(s.drop_last());
    }
}

/// The summary owed for a sequence of raw readings: not-available when no
/// reading qualifies, otherwise the truncated average, the maximum, and
/// the band of the exact average of the qualifying readings.
pub open spec fn spec_temp_summary(readings: Seq<TempReading>) -> TempSummary {
    let q = qual_seq(readings);
    if q.len() == 0 {
        TempSummary::NotAvailable
    } else {
        TempSummary::Available {
            avg_milli: (sum_milli(q) / q.len() as int) as u64,
            max_milli: max_milli(q) as u64,
            band: spec_temp_band(sum_milli(q), q.len() as int),
        }
    }
}

/// Derives the CPU temperature summary from the raw sensor readings:
/// filters to positive CPU-related readings; with none, reports
/// not-available rather than a fabricated average.
pub fn temp_summary(readings: &Vec<TempReading>) -> (t: TempSummary)
    ensures
        t == spec_temp_summary(readings@),
{
    let mut sum: u128 = 0;
    let mut max: u64 = 0;
    let mut count: usize = 0;
    let n = readings.len();
    let mut i: usize = 0;
    proof {
        assert(readings@.take(0) =~= Seq::<TempReading>::empty());
        reveal(Seq::filter);
        assert(qual_seq(readings@.take(0)).len() == 0);
    }
    while i < n
        invariant
            0 <= i <= n,
            n == readings@.len(),
            count == qual_seq(readings@.take(i as int)).len(),
            sum == sum_milli(qual_seq(readings@.take(i as int))),
            max == max_milli(qual_seq(readings@.take(i as int))),
            forall|k: int| 0 <= k < qual_seq(readings@.take(i as int)).len()
                ==> 0 < #[trigger] qual_seq(readings@.take(i as int))[k].milli_c,
            count <= i,
            sum <= count * (i64::MAX as int),
            max <= i64::MAX,
        decreases n - i,
    {
        let ghost prefix = readings@.take(i as int);
        let ghost prefix1 = readings@.take(i as int + 1);
        let r = &readings[i];
        let q = r.milli_c > 0 && is_cpu_sensor_label(r.label.as_str());
        proof {
            reveal(Seq::filter);
            assert(prefix1.drop_last() =~= prefix);
            assert(prefix1.last() == readings@[i as int]);
            assert(*r == readings@[i as int]);
            assert(q == qualifying(prefix1.last()));
        }
        if q {
            let v = r.milli_c as u64;
            sum = sum + v as u128;
            if v > max {
                max = v;
            }
            count = count + 1;
            proof {
                reveal(Seq::filter);
                assert(qual_seq(prefix1) =~= qual_seq(prefix).push(*r));
                assert(qual_seq(prefix1).drop_last() =~= qual_seq(prefix));
            }
        } else {
            proof {
                reveal(Seq::filter);
                assert(qual_seq(prefix1) =~= qual_seq(prefix));
            }
        }
        i = i + 1;
    }
    proof {
        assert(readings@.take(n as int) =~= readings@);
    }
    if count == 0 {
        TempSummary::NotAvailable
    } else {
        let ghost q = qual_seq(readings@);
        proof {
            lemma_sum_milli_bounds(q);
            vstd::arithmetic::div_mod::lemma_div_is_ordered(sum as int, count as int * (
            i64::MAX as int), count as int);
            vstd::arithmetic::div_mod::lemma_div_multiples_vanish(i64::MAX as int, count as int);
        }
        let avg: u64 = (sum / count as u128) as u64;
        let band = temp_band(sum, count);
        TempSummary::Available { avg_milli: avg, max_milli: max, band }
    }
}

} // verus!
