//! Per-page statistics: null count and min/max over the non-null values.
//!
//! Sentinel nulls are excluded from aggregation. A chunk with no non-null
//! value yields no min/max at all (`min_max` is `None`) rather than
//! letting the fold's extremal start values leak into the output.

use vstd::prelude::*;

use crate::nullable::{is_null_i32, F32Bits, Nullable};

verus! {

/// Statistics of one page: how many rows are the null sentinel, and the
/// least and greatest non-null value. `min_max` is `None` exactly when
/// the chunk holds no non-null value; callers must check it (or compare
/// `null_count` against the row count) before trusting min/max.
#[derive(Clone, Copy, PartialEq, Eq, Debug)]
pub struct PageStatistics<T> {
    pub null_count: u64,
    pub min_max: Option<(T, T)>,
}

/// The non-null values of a chunk, in order.
pub open spec fn non_null_values(s: Seq<i32>) -> Seq<i32> {
    s.filter(|v: i32| !is_null_i32(v))
}

/// How many values of the chunk are the null sentinel.
pub open spec fn spec_null_count(s: Seq<i32>) -> int {
    s.filter(|v: i32| is_null_i32(v)).len() as int
}

/// Least element of a sequence of 32-bit values; the type's maximum when
/// the sequence is empty, matching a fold that starts there.
pub open spec fn seq_min(s: Seq<i32>) -> i32
    decreases s.len(),
{
    if s.len() == 0 {
        i32::MAX
    } else {
        let m = seq_min(s.drop_last());
        if s.last() < m {
            s.last()
        } else {
            m
        }
    }
}

/// Greatest element of a sequence of 32-bit values; the type's minimum
/// when the sequence is empty.
pub open spec fn seq_max(s: Seq<i32>) -> i32
    decreases s.len(),
{
    if s.len() == 0 {
        i32::MIN
    } else {
        let m = seq_max(s.drop_last());
        if s.last() > m {
            s.last()
        } else {
            m
        }
    }
}

/// Whenever a chunk has at least one non-null value, its statistics obey
/// `min <= max`, and both bounds are attained by the sequence: every
/// element lies between them and each is an element itself.
pub proof fn lemma_min_max_bounds(s: Seq<i32>)
    requires
        s.len() > 0,
    ensures
        seq_min(s) <= seq_max(s),
        s.contains(seq_min(s)),
        s.contains(seq_max(s)),
        forall|i: int| 0 <= i < s.len() ==> seq_min(s) <= #[trigger] s[i] <= seq_max(s),
    decreases s.len(),
{
    if s.len() == 1 {
        assert(s[0] == s.last());
        assert(s.drop_last() =~= Seq::<i32>::empty());
        assert(seq_min(s.drop_last()) == i32::MAX);
        assert(seq_max(s.drop_last()) == i32::MIN);
    } else {
        lemma_min_max_bounds(s.drop_last());
        let d = s.drop_last();
        if s.last() == seq_min(s) {
            assert(s[s.len() - 1] == seq_min(s));
        } else {
            assert(seq_min(s) == seq_min(d));
            let j = choose|j: int| 0 <= j < d.len() && d[j] == seq_min(d);
            assert(s[j] == seq_min(s));
        }
        if s.last() == seq_max(s) {
            assert(s[s.len() - 1] == seq_max(s));
        } else {
            assert(seq_max(s) == seq_max(d));
            let j = choose|j: int| 0 <= j < d.len() && d[j] == seq_max(d);
            assert(s[j] == seq_max(s));
        }
        assert forall|i: int| 0 <= i < s.len() implies seq_min(s) <= #[trigger] s[i] <= seq_max(
            s,
        ) by {
            if i < s.len() - 1 {
                assert(s[i] == d[i]);
            } else {
                assert(s[i] == s.last());
            }
        }
    }
}

/// Whenever a chunk has at least one non-null value, the statistics
/// built over it obey `min <= max`, and both bounds lie within the
/// non-null subset's actual range: every non-null value falls between
/// them and each bound is itself such a value.
pub proof fn lemma_statistics_bounds(chunk: Seq<i32>)
    requires
        non_null_values(chunk).len() > 0,
    ensures
        seq_min(non_null_values(chunk)) <= seq_max(non_null_values(chunk)),
        non_null_values(chunk).contains(seq_min(non_null_values(chunk))),
        non_null_values(chunk).contains(seq_max(non_null_values(chunk))),
        forall|i: int|
            0 <= i < non_null_values(chunk).len() ==> seq_min(non_null_values(chunk))
                <= #[trigger] non_null_values(chunk)[i] <= seq_max(non_null_values(chunk)),
{
    lemma_min_max_bounds(non_null_values(chunk));
}

/// Aggregate null count and non-null min/max over a chunk of 32-bit
/// integer values, excluding the sentinel from min/max.
pub fn build_statistics(chunk: &[i32]) -> (r: PageStatistics<i32>)
    requires
        chunk@.len() <= u64::MAX,
    ensures
        r.null_count == spec_null_count(chunk@),
        r.min_max is Some <==> non_null_values(chunk@).len() > 0,
        r.min_max is Some ==> r.min_max.unwrap().0 == seq_min(non_null_values(chunk@))
            && r.min_max.unwrap().1 == seq_max(non_null_values(chunk@)),
{
    let mut null_count: u64 = 0;
    let mut min_max: Option<(i32, i32)> = Option::None;
    let mut i: usize = 0;
    while i < chunk.len()
        invariant
            0 <= i <= chunk@.len() <= u64::MAX,
            null_count == spec_null_count(chunk@.take(i as int)),
            min_max is Some <==> non_null_values(chunk@.take(i as int)).len() > 0,
            min_max is Some ==> min_max.unwrap().0 == seq_min(non_null_values(chunk@.take(i as int)))
                && min_max.unwrap().1 == seq_max(non_null_values(chunk@.take(i as int))),
        decreases chunk@.len() - i,
    {
        let v = chunk[i];
        proof {
            assert(chunk@.take(i + 1) =~= chunk@.take(i as int).push(chunk@[i as int]));
            chunk@.take(i as int).lemma_filter_push(chunk@[i as int], |x: i32| is_null_i32(x));
            chunk@.take(i as int).lemma_filter_push(chunk@[i as int], |x: i32| !is_null_i32(x));
            chunk@.take(i as int).lemma_filter_len(|x: i32| is_null_i32(x));
            let nn = non_null_values(chunk@.take(i as int));
            assert(nn.push(chunk@[i as int]).drop_last() =~= nn);
            if nn.len() == 0 {
                assert(nn =~= Seq::<i32>::empty());
                assert(seq_min(nn) == i32::MAX);
                assert(seq_max(nn) == i32::MIN);
            }
        }
        if v.is_null() {
            null_count = null_count + 1;
        } else {
            min_max = match min_max {
                Option::None => Option::Some((v, v)),
                Option::Some((mn, mx)) => Option::Some(
                    (if v < mn { v } else { mn }, if v > mx { v } else { mx }),
                ),
            };
        }
        i = i + 1;
    }
    proof {
        assert(chunk@.take(i as int) =~= chunk@);
    }
    PageStatistics { null_count, min_max }
}

/// Monotone key for ordering single-precision bit patterns: on non-NaN
/// inputs it orders exactly as the encoded values do, with negatives (sign
/// bit set) below positives and negative zero just below positive zero.
pub open spec fn spec_f32_key(bits: u32) -> int {
    if bits < 0x8000_0000 {
        bits + 0x8000_0000
    } else {
        0xffff_ffff - bits
    }
}

/// Order on single-precision bit patterns by their monotone key.
pub open spec fn f32_le(a: F32Bits, b: F32Bits) -> bool {
    spec_f32_key(a.bits) <= spec_f32_key(b.bits)
}

fn f32_key(bits: u32) -> (k: u32)
    ensures
        k == spec_f32_key(bits),
{
    if bits < 0x8000_0000 {
        bits + 0x8000_0000
    } else {
        0xffff_ffff - bits
    }
}

/// Least element of a sequence of single-precision bit patterns under
/// [`f32_le`]; meaningful only for non-empty sequences.
pub open spec fn seq_min_f32(s: Seq<F32Bits>) -> F32Bits
    decreases s.len(),
{
    if s.len() <= 1 {
        s[0]
    } else {
        let m = seq_min_f32(s.drop_last());
        if f32_le(s.last(), m) {
            s.last()
        } else {
            m
        }
    }
}

/// Greatest element of a sequence of single-precision bit patterns under
/// [`f32_le`]; meaningful only for non-empty sequences.
pub open spec fn seq_max_f32(s: Seq<F32Bits>) -> F32Bits
    decreases s.len(),
{
    if s.len() <= 1 {
        s[0]
    } else {
        let m = seq_max_f32(s.drop_last());
        if f32_le(m, s.last()) {
            s.last()
        } else {
            m
        }
    }
}

/// The non-null (non-NaN) values of a single-precision chunk, in order.
pub open spec fn non_null_values_f32(s: Seq<F32Bits>) -> Seq<F32Bits> {
    s.filter(|v: F32Bits| !v.spec_is_null())
}

/// How many values of a single-precision chunk are NaN.
pub open spec fn spec_null_count_f32(s: Seq<F32Bits>) -> int {
    s.filter(|v: F32Bits| v.spec_is_null()).len() as int
}

/// As [`lemma_min_max_bounds`], for single-precision bit patterns under
/// the [`f32_le`] order.
pub proof fn lemma_min_max_bounds_f32(s: Seq<F32Bits>)
    requires
        s.len() > 0,
    ensures
        f32_le(seq_min_f32(s), seq_max_f32(s)),
        s.contains(seq_min_f32(s)),
        s.contains(seq_max_f32(s)),
        forall|i: int|
            0 <= i < s.len() ==> f32_le(seq_min_f32(s), #[trigger] s[i]) && f32_le(
                s[i],
                seq_max_f32(s),
            ),
    decreases s.len(),
{
    if s.len() == 1 {
        assert(s[0] == s.last());
    } else {
        lemma_min_max_bounds_f32(s.drop_last());
        let d = s.drop_last();
        if s.last() == seq_min_f32(s) {
            assert(s[s.len() - 1] == seq_min_f32(s));
        } else {
            assert(seq_min_f32(s) == seq_min_f32(d));
            let j = choose|j: int| 0 <= j < d.len() && d[j] == seq_min_f32(d);
            assert(s[j] == seq_min_f32(s));
        }
        if s.last() == seq_max_f32(s) {
            assert(s[s.len() - 1] == seq_max_f32(s));
        } else {
            assert(seq_max_f32(s) == seq_max_f32(d));
            let j = choose|j: int| 0 <= j < d.len() && d[j] == seq_max_f32(d);
            assert(s[j] == seq_max_f32(s));
        }
        assert forall|i: int| 0 <= i < s.len() implies f32_le(seq_min_f32(s), #[trigger] s[i])
            && f32_le(s[i], seq_max_f32(s)) by {
            if i < s.len() - 1 {
                assert(s[i] == d[i]);
            } else {
                assert(s[i] == s.last());
            }
        }
    }
}

/// As [`lemma_statistics_bounds`], for a single-precision chunk under
/// the [`f32_le`] order.
pub proof fn lemma_statistics_bounds_f32(chunk: Seq<F32Bits>)
    requires
        non_null_values_f32(chunk).len() > 0,
    ensures
        f32_le(seq_min_f32(non_null_values_f32(chunk)), seq_max_f32(non_null_values_f32(chunk))),
        non_null_values_f32(chunk).contains(seq_min_f32(non_null_values_f32(chunk))),
        non_null_values_f32(chunk).contains(seq_max_f32(non_null_values_f32(chunk))),
        forall|i: int|
            0 <= i < non_null_values_f32(chunk).len() ==> f32_le(
                seq_min_f32(non_null_values_f32(chunk)),
                #[trigger] non_null_values_f32(chunk)[i],
            ) && f32_le(
                non_null_values_f32(chunk)[i],
                seq_max_f32(non_null_values_f32(chunk)),
            ),
{
    lemma_min_max_bounds_f32(non_null_values_f32(chunk));
}

/// Aggregate null count and non-null min/max over a chunk of
/// single-precision bit patterns, excluding NaN from min/max.
pub fn build_statistics_f32(chunk: &[F32Bits]) -> (r: PageStatistics<F32Bits>)
    requires
        chunk@.len() <= u64::MAX,
    ensures
        r.null_count == spec_null_count_f32(chunk@),
        r.min_max is Some <==> non_null_values_f32(chunk@).len() > 0,
        r.min_max is Some ==> r.min_max.unwrap().0 == seq_min_f32(non_null_values_f32(chunk@))
            && r.min_max.unwrap().1 == seq_max_f32(non_null_values_f32(chunk@)),
{
    let mut null_count: u64 = 0;
    let mut min_max: Option<(F32Bits, F32Bits)> = Option::None;
    let mut i: usize = 0;
    while i < chunk.len()
        invariant
            0 <= i <= chunk@.len() <= u64::MAX,
            null_count == spec_null_count_f32(chunk@.take(i as int)),
            min_max is Some <==> non_null_values_f32(chunk@.take(i as int)).len() > 0,
            min_max is Some ==> min_max.unwrap().0 == seq_min_f32(
                non_null_values_f32(chunk@.take(i as int)),
            ) && min_max.unwrap().1 == seq_max_f32(non_null_values_f32(chunk@.take(i as int))),
        decreases chunk@.len() - i,
    {
        let v = chunk[i];
        proof {
            assert(chunk@.take(i + 1) =~= chunk@.take(i as int).push(chunk@[i as int]));
            chunk@.take(i as int).lemma_filter_push(
                chunk@[i as int],
                |x: F32Bits| x.spec_is_null(),
            );
            chunk@.take(i as int).lemma_filter_push(
                chunk@[i as int],
                |x: F32Bits| !x.spec_is_null(),
            );
            chunk@.take(i as int).lemma_filter_len(|x: F32Bits| x.spec_is_null());
            let nn = non_null_values_f32(chunk@.take(i as int));
            assert(nn.push(chunk@[i as int]).drop_last() =~= nn);
        }
        if v.is_null() {
            null_count = null_count + 1;
        } else {
            min_max = match min_max {
                Option::None => Option::Some((v, v)),
                Option::Some((mn, mx)) => {
                    let lo = if f32_key(v.bits) < f32_key(mn.bits) {
                        v
                    } else {
                        mn
                    };
                    let hi = if f32_key(v.bits) > f32_key(mx.bits) {
                        v
                    } else {
                        mx
                    };
                    Option::Some((lo, hi))
                },
            };
        }
        i = i + 1;
    }
    proof {
        assert(chunk@.take(i as int) =~= chunk@);
    }
    PageStatistics { null_count, min_max }
}

} // verus!
