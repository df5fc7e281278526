//! Fair contiguous partitioning of `N` ordered rows into `K` parts.
//!
//! Part `i` (0-based internally; the public API is 1-based) receives
//! `base = N div K` rows, plus one extra row when `i < N mod K`, starting at
//! row `i * base + min(i, N mod K)`. The ranges are pairwise disjoint,
//! contiguous, and together cover exactly the rows `[0, N)`.

use crate::batch::{
    batch_rows, lemma_rows_of_push, lemma_rows_of_split, lemma_rows_of_take_succ, rows_of,
    RowBatch,
};
use vstd::arithmetic::div_mod::{
    lemma_div_pos_is_pos, lemma_fundamental_div_mod, lemma_mod_bound,
};
use vstd::arithmetic::mul::lemma_mul_inequality;
use vstd::math::min;
use vstd::prelude::*;

verus! {

/// The rows of `s` that lie in the half-open range `[off, off + lim)`,
/// clamped to the end of the sequence: exactly what pushing the same
/// offset and limit down into the row source would materialize.
pub open spec fn range_clip(s: Seq<int>, off: int, lim: int) -> Seq<int>
    recommends
        0 <= off,
        0 <= lim,
{
    s.subrange(min(off, s.len() as int), min(off + lim, s.len() as int))
}

/// Row count of the 0-based part `i` when `total` rows are split into
/// `parts` parts: the base share, plus one of the `total % parts`
/// remainder rows for the first parts.
pub open spec fn part_limit(total: int, parts: int, i: int) -> int {
    total / parts + if i < total % parts {
        1int
    } else {
        0int
    }
}

/// First row of the 0-based part `i`: every earlier part contributes its
/// base share, and each of the `min(i, total % parts)` earlier parts that
/// absorbed a remainder row contributes one more.
pub open spec fn part_offset(total: int, parts: int, i: int) -> int {
    i * (total / parts) + if i < total % parts {
        i
    } else {
        total % parts
    }
}

/// Sum of the limits of the 0-based parts `0 .. k`.
pub open spec fn limits_sum(total: int, parts: int, k: int) -> int
    decreases k,
{
    if k <= 0 {
        0
    } else {
        limits_sum(total, parts, k - 1) + part_limit(total, parts, k - 1)
    }
}

/// One part's half-open row range `[offset, offset + limit)` over the full
/// ordered row sequence. Always derived by `calculate`, never mutated.
pub struct PartitionStrategy {
    pub offset: i64,
    pub limit: i64,
}

impl PartitionStrategy {
    /// The range lies within `[0, total]` for a dataset of `total` rows and
    /// its end fits in the machine integer.
    pub open spec fn in_bounds(self, total: int) -> bool {
        0 <= self.offset && 0 <= self.limit && self.offset + self.limit <= total
    }

    /// Computes the remainder-fair range of 1-based part `part` of `parts`
    /// over `total_rows` ordered rows.
    pub fn calculate(total_rows: i64, parts: i32, part: i32) -> (r: Self)
        requires
            total_rows >= 0,
            parts >= 1,
            1 <= part <= parts,
        ensures
            r.offset as int == part_offset(total_rows as int, parts as int, part - 1),
            r.limit as int == part_limit(total_rows as int, parts as int, part - 1),
            r.in_bounds(total_rows as int),
    {
        let parts64: i64 = parts as i64;
        let i: i64 = (part as i64) - 1;
        let base: i64 = total_rows / parts64;
        let rem: i64 = total_rows % parts64;
        proof {
            lemma_partition_in_bounds(total_rows as int, parts64 as int, i as int);
        }
        let extra: i64 = if i < rem {
            1
        } else {
            0
        };
        let limit: i64 = base + extra;
        let fair: i64 = if i < rem {
            i
        } else {
            rem
        };
        let offset: i64 = i * base + fair;
        Self { offset, limit }
    }

    /// Start of the range.
    pub fn offset(&self) -> (r: i64)
        ensures
            r == self.offset,
    {
        self.offset
    }

    /// Row count of the range.
    pub fn limit(&self) -> (r: i64)
        ensures
            r == self.limit,
    {
        self.limit
    }

    /// Slices an already-materialized batch sequence to this range: walks
    /// the batches in order with a running row cursor, skips batches wholly
    /// outside `[offset, offset + limit)`, and slices the overlapping
    /// sub-range out of the others without copying row data. The results
    /// concatenate to exactly the rows of the range, and no empty batch is
    /// emitted.
    pub fn apply_to_batches(&self, batches: &Vec<RowBatch>) -> (r: Vec<RowBatch>)
        requires
            0 <= self.offset,
            0 <= self.limit,
            self.offset + self.limit <= i64::MAX,
            rows_of(batches@).len() <= i64::MAX,
        ensures
            rows_of(r@) == range_clip(rows_of(batches@), self.offset as int, self.limit as int),
            forall|j: int| 0 <= j < r@.len() ==> batch_rows(r@[j]).len() > 0,
    {
        let offset: i64 = self.offset;
        let end_offset: i64 = self.offset + self.limit;
        let mut result: Vec<RowBatch> = Vec::new();
        let mut current_offset: i64 = 0;
        let n: usize = batches.len();
        let mut idx: usize = 0;
        while idx < n
            invariant
                0 <= offset == self.offset,
                offset <= end_offset == self.offset + self.limit,
                end_offset <= i64::MAX,
                n == batches@.len(),
                0 <= idx <= n,
                rows_of(batches@).len() <= i64::MAX,
                current_offset as int == rows_of(batches@.take(idx as int)).len(),
                rows_of(result@) == range_clip(
                    rows_of(batches@.take(idx as int)),
                    offset as int,
                    self.limit as int,
                ),
                forall|j: int| 0 <= j < result@.len() ==> batch_rows(result@[j]).len() > 0,
            decreases n - idx,
        {
            proof {
                lemma_rows_of_take_succ(batches@, idx as int);
                lemma_rows_of_split(batches@, idx as int + 1);
            }
            let ghost prefix_old = rows_of(batches@.take(idx as int));
            let ghost prefix_new = rows_of(batches@.take(idx as int + 1));
            let ghost brows = batch_rows(batches@[idx as int]);
            let b = &batches[idx];
            let nrows: usize = b.num_rows();
            let batch_len: i64 = nrows as i64;
            let batch_end: i64 = current_offset + batch_len;

            if batch_end <= offset || current_offset >= end_offset {
                proof {
                    assert(range_clip(prefix_new, offset as int, self.limit as int)
                        =~= range_clip(prefix_old, offset as int, self.limit as int));
                }
            } else {
                let start_in_batch: usize = if offset > current_offset {
                    (offset - current_offset) as usize
                } else {
                    0
                };
                let end_in_batch: usize = if end_offset - current_offset < batch_len {
                    (end_offset - current_offset) as usize
                } else {
                    nrows
                };
                let length: usize = end_in_batch - start_in_batch;
                let ghost appended = brows.subrange(
                    start_in_batch as int,
                    end_in_batch as int,
                );
                proof {
                    assert(range_clip(prefix_new, offset as int, self.limit as int)
                        =~= range_clip(prefix_old, offset as int, self.limit as int) + appended);
                }
                if length > 0 {
                    let sliced = b.slice(start_in_batch, length);
                    proof {
                        lemma_rows_of_push(result@, sliced);
                    }
                    result.push(sliced);
                } else {
                    proof {
                        assert(appended =~= Seq::<int>::empty());
                        assert(rows_of(result@) + appended =~= rows_of(result@));
                    }
                }
            }
            current_offset = batch_end;
            idx = idx + 1;
        }
        proof {
            assert(batches@.take(n as int) =~= batches@);
        }
        result
    }

    /// What pushing this range down into the row source makes it
    /// materialize: the rows of `[offset, offset + limit)` of the full
    /// ordered sequence, clamped to its end. Its contract pins the output
    /// to the same `range_clip` as `apply_to_batches`, so the two appliers
    /// produce row-identical output for the same range and row sequence.
    pub fn apply_to_rows(&self, rows: &Vec<i64>) -> (r: Vec<i64>)
        requires
            0 <= self.offset,
            0 <= self.limit,
            self.offset + self.limit <= i64::MAX,
        ensures
            r@.map_values(|v: i64| v as int) == range_clip(
                rows@.map_values(|v: i64| v as int),
                self.offset as int,
                self.limit as int,
            ),
    {
        let len: usize = rows.len();
        let start: usize = if self.offset as u64 >= len as u64 {
            len
        } else {
            self.offset as usize
        };
        let end: usize = if (self.offset + self.limit) as u64 >= len as u64 {
            len
        } else {
            (self.offset + self.limit) as usize
        };
        let mut out: Vec<i64> = Vec::new();
        let mut j: usize = start;
        while j < end
            invariant
                start <= j <= end <= len == rows@.len(),
                out@.len() == j - start,
                forall|k: int| 0 <= k < out@.len() ==> out@[k] == rows@[start + k],
            decreases end - j,
        {
            out.push(rows[j]);
            j = j + 1;
        }
        proof {
            assert(out@.map_values(|v: i64| v as int) =~= range_clip(
                rows@.map_values(|v: i64| v as int),
                self.offset as int,
                self.limit as int,
            ));
        }
        out
    }
}

/// Every part's range starts at or after row 0 and ends at or before row
/// `total`; the multiplication and additions forming it stay in bounds.
pub proof fn lemma_partition_in_bounds(total: int, parts: int, i: int)
    requires
        total >= 0,
        parts >= 1,
        0 <= i < parts,
    ensures
        0 <= i * (total / parts) <= total,
        0 <= part_offset(total, parts, i),
        0 <= part_limit(total, parts, i),
        part_offset(total, parts, i) + part_limit(total, parts, i) <= total,
{
    let base = total / parts;
    lemma_div_pos_is_pos(total, parts);
    lemma_mod_bound(total, parts);
    lemma_fundamental_div_mod(total, parts);
    lemma_mul_inequality(i, parts, base);
    lemma_mul_inequality(i + 1, parts, base);
    assert((i + 1) * base == i * base + base) by (nonlinear_arith);
    assert(parts * base == base * parts) by (nonlinear_arith);
}

/// The ranges are gap-free and start at row 0: the first part's offset is 0,
/// and each part's range ends exactly where the next part's range begins.
pub proof fn lemma_ranges_contiguous(total: int, parts: int, i: int)
    requires
        total >= 0,
        parts >= 1,
        0 <= i < parts,
    ensures
        part_offset(total, parts, 0) == 0,
        part_offset(total, parts, i) + part_limit(total, parts, i)
            == part_offset(total, parts, i + 1),
{
    let base = total / parts;
    lemma_mod_bound(total, parts);
    assert(0 * base == 0) by (nonlinear_arith);
    assert((i + 1) * base == i * base + base) by (nonlinear_arith);
}

/// The last range ends exactly at row `total`: nothing is left over.
pub proof fn lemma_last_range_ends_at_total(total: int, parts: int)
    requires
        total >= 0,
        parts >= 1,
    ensures
        part_offset(total, parts, parts) == total,
{
    lemma_mod_bound(total, parts);
    lemma_fundamental_div_mod(total, parts);
    assert(parts * (total / parts) == (total / parts) * parts) by (nonlinear_arith);
}

/// The limits of the parts `0 .. k` sum to the offset of part `k`: the
/// ranges tile an initial segment of the row sequence.
pub proof fn lemma_limits_sum_is_offset(total: int, parts: int, k: int)
    requires
        total >= 0,
        parts >= 1,
        0 <= k <= parts,
    ensures
        limits_sum(total, parts, k) == part_offset(total, parts, k),
    decreases k,
{
    if k == 0 {
        lemma_mod_bound(total, parts);
        assert(0 * (total / parts) == 0) by (nonlinear_arith);
    } else {
        lemma_limits_sum_is_offset(total, parts, k - 1);
        lemma_ranges_contiguous(total, parts, k - 1);
    }
}

/// The limits of all `parts` parts sum to exactly `total`: no row is lost
/// and none is duplicated.
pub proof fn lemma_limits_sum_to_total(total: int, parts: int)
    requires
        total >= 0,
        parts >= 1,
    ensures
        limits_sum(total, parts, parts) == total,
{
    lemma_limits_sum_is_offset(total, parts, parts);
    lemma_last_range_ends_at_total(total, parts);
}

/// Every part's limit is the base share or one more: the split is fair.
pub proof fn lemma_limits_fair(total: int, parts: int, i: int)
    requires
        total >= 0,
        parts >= 1,
        0 <= i < parts,
    ensures
        part_limit(total, parts, i) == total / parts
            || part_limit(total, parts, i) == total / parts + 1,
{
}

/// The slices of the 0-based parts `0 .. k` of the row sequence `s`,
/// concatenated in part order, when `s` is split into `parts` parts.
pub open spec fn parts_clip_concat(s: Seq<int>, parts: int, k: int) -> Seq<int>
    decreases k,
{
    if k <= 0 {
        Seq::empty()
    } else {
        parts_clip_concat(s, parts, k - 1) + range_clip(
            s,
            part_offset(s.len() as int, parts, k - 1),
            part_limit(s.len() as int, parts, k - 1),
        )
    }
}

/// The slices of the parts `0 .. k` concatenate to exactly the first
/// `part_offset(k)` rows of the sequence: each slice continues exactly
/// where the previous one stopped.
pub proof fn lemma_parts_clip_prefix(s: Seq<int>, parts: int, k: int)
    requires
        parts >= 1,
        0 <= k <= parts,
    ensures
        parts_clip_concat(s, parts, k) == s.take(part_offset(s.len() as int, parts, k)),
    decreases k,
{
    let total = s.len() as int;
    if k == 0 {
        lemma_ranges_contiguous(total, parts, 0);
        assert(parts_clip_concat(s, parts, 0) =~= s.take(part_offset(total, parts, 0)));
    } else {
        lemma_parts_clip_prefix(s, parts, k - 1);
        lemma_ranges_contiguous(total, parts, k - 1);
        lemma_partition_in_bounds(total, parts, k - 1);
        let off = part_offset(total, parts, k - 1);
        let lim = part_limit(total, parts, k - 1);
        assert(range_clip(s, off, lim) =~= s.subrange(off, off + lim));
        assert(s.take(off + lim) =~= s.take(off) + s.subrange(off, off + lim));
    }
}

/// Concatenating the batch-slice results across all parts reproduces the
/// full row sequence exactly, in order, with no duplication and no gap.
pub proof fn lemma_parts_reassemble(s: Seq<int>, parts: int)
    requires
        parts >= 1,
    ensures
        parts_clip_concat(s, parts, parts) == s,
{
    lemma_parts_clip_prefix(s, parts, parts);
    lemma_last_range_ends_at_total(s.len() as int, parts);
    assert(s.take(s.len() as int) =~= s);
}

/// The contract of `calculate` pins the range down uniquely: any two ranges
/// computed for the same `(total, parts, part)` coincide, so the computation
/// is a pure function of its inputs.
pub proof fn lemma_calculate_deterministic(
    a: PartitionStrategy,
    b: PartitionStrategy,
    total: int,
    parts: int,
    i: int,
)
    requires
        a.offset as int == part_offset(total, parts, i),
        a.limit as int == part_limit(total, parts, i),
        b.offset as int == part_offset(total, parts, i),
        b.limit as int == part_limit(total, parts, i),
    ensures
        a == b,
{
}

} // verus!
