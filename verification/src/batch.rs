//! Model of row batches: ordered, immutable, zero-copy-sliceable sequences
//! of rows sharing one schema, backed by Arrow record batches.
//!
//! A batch's rows are opaque to the verifier; `batch_rows` names the row
//! sequence a batch holds, each row abstracted as a mathematical value, and
//! the trusted wrappers below relate the Arrow calls the library makes to
//! that name. Everything else about batches is proved.

use arrow_array::Array;
use arrow_array::RecordBatch;
use vstd::prelude::*;

verus! {

/// One row batch. Holds the backing Arrow record batch, which the verifier
/// does not look into; `batch_rows` speaks for its contents.
#[verifier::external_body]
pub struct RowBatch {
    inner: RecordBatch,
}

/// The ordered sequence of rows a batch holds, each row abstracted as a
/// mathematical value. A batch value determines its rows; for a batch built
/// from a single 64-bit integer column, a row is that integer.
pub uninterp spec fn batch_rows(b: RowBatch) -> Seq<int>;

impl RowBatch {
    /// Relies on arrow's `Int64Array::from` and `RecordBatch::try_new`:
    /// builds a batch of one non-nullable 64-bit integer column holding
    /// exactly `values`, in order.
    #[verifier::external_body]
    pub fn new_i64(name: &str, values: Vec<i64>) -> (r: RowBatch)
        ensures
            batch_rows(r) == values@.map_values(|v: i64| v as int),
    {
        let array = arrow_array::Int64Array::from(values);
        let field = arrow_schema::Field::new(name, arrow_schema::DataType::Int64, false);
        let schema = std::sync::Arc::new(arrow_schema::Schema::new(vec![field]));
        let inner = RecordBatch::try_new(schema, vec![std::sync::Arc::new(array)]).unwrap();
        RowBatch { inner }
    }

    /// Relies on arrow's `RecordBatch::num_rows`: returns the number of
    /// rows the batch holds.
    #[verifier::external_body]
    pub fn num_rows(&self) -> (r: usize)
        ensures
            r as int == batch_rows(*self).len(),
    {
        self.inner.num_rows()
    }

    /// Relies on arrow's `RecordBatch::slice`: returns a new batch holding
    /// exactly the rows `offset .. offset + length` of this batch, sharing
    /// the underlying column buffers (no row data is copied). The call
    /// panics when the range exceeds the batch, which the precondition
    /// rules out.
    #[verifier::external_body]
    pub fn slice(&self, offset: usize, length: usize) -> (r: RowBatch)
        requires
            offset + length <= batch_rows(*self).len(),
        ensures
            batch_rows(r) == batch_rows(*self).subrange(
                offset as int,
                offset as int + length as int,
            ),
    {
        RowBatch { inner: self.inner.slice(offset, length) }
    }

    /// Relies on arrow's `Int64Array` accessors: for a batch of one
    /// non-nullable 64-bit integer column, returns its values in order;
    /// returns nothing for any other shape of batch.
    #[verifier::external_body]
    pub fn values_i64(&self) -> (r: Option<Vec<i64>>)
        ensures
            r matches Some(v) ==> v@.map_values(|x: i64| x as int) == batch_rows(*self),
    {
        if self.inner.num_columns() != 1 {
            return None;
        }
        match self.inner.column(0).as_any().downcast_ref::<arrow_array::Int64Array>() {
            Some(a) if a.null_count() == 0 => Some(a.values().to_vec()),
            _ => None,
        }
    }
}

/// The rows of a batch sequence: the concatenation, in order, of each
/// batch's rows. Many batches concatenate to form the full row sequence.
pub open spec fn rows_of(batches: Seq<RowBatch>) -> Seq<int>
    decreases batches.len(),
{
    if batches.len() == 0 {
        Seq::empty()
    } else {
        batch_rows(batches[0]) + rows_of(batches.drop_first())
    }
}

/// Appending a batch appends its rows.
pub proof fn lemma_rows_of_push(s: Seq<RowBatch>, b: RowBatch)
    ensures
        rows_of(s.push(b)) == rows_of(s) + batch_rows(b),
    decreases s.len(),
{
    if s.len() == 0 {
        assert(s.push(b).drop_first() =~= Seq::<RowBatch>::empty());
        assert(s.push(b)[0] == b);
        assert(rows_of(Seq::<RowBatch>::empty()) == Seq::<int>::empty());
        assert(rows_of(s.push(b)) == batch_rows(b) + Seq::<int>::empty());
        assert(rows_of(s.push(b)) =~= rows_of(s) + batch_rows(b));
    } else {
        assert(s.push(b).drop_first() =~= s.drop_first().push(b));
        assert(s.push(b)[0] == s[0]);
        lemma_rows_of_push(s.drop_first(), b);
        assert(rows_of(s.push(b)) =~= rows_of(s) + batch_rows(b));
    }
}

/// Taking one more batch appends that batch's rows to the prefix's rows.
pub proof fn lemma_rows_of_take_succ(s: Seq<RowBatch>, i: int)
    requires
        0 <= i < s.len(),
    ensures
        rows_of(s.take(i + 1)) == rows_of(s.take(i)) + batch_rows(s[i]),
{
    assert(s.take(i + 1) =~= s.take(i).push(s[i]));
    lemma_rows_of_push(s.take(i), s[i]);
}

/// The rows of a batch sequence split at any point into the rows of the
/// prefix followed by the rows of the suffix.
pub proof fn lemma_rows_of_split(s: Seq<RowBatch>, i: int)
    requires
        0 <= i <= s.len(),
    ensures
        rows_of(s) == rows_of(s.take(i)) + rows_of(s.skip(i)),
    decreases i,
{
    if i == 0 {
        assert(s.take(0) =~= Seq::<RowBatch>::empty());
        assert(s.skip(0) =~= s);
        assert(rows_of(s.take(0)) + rows_of(s.skip(0)) =~= rows_of(s));
    } else {
        lemma_rows_of_split(s, i - 1);
        lemma_rows_of_take_succ(s, i - 1);
        assert(s.skip(i - 1)[0] == s[i - 1]);
        assert(s.skip(i - 1).drop_first() =~= s.skip(i));
        assert(rows_of(s.skip(i - 1)) == batch_rows(s[i - 1]) + rows_of(s.skip(i)));
        assert(rows_of(s.take(i)) + rows_of(s.skip(i)) =~= rows_of(s.take(i - 1)) + rows_of(
            s.skip(i - 1),
        ));
    }
}

} // verus!
