//! Reading a dataframe back as a sequence of record batches, one per chunk.
use vstd::prelude::*;
use crate::array::{is_null, ArrayData};
use crate::dtype::{ConversionError, FieldB};
use crate::frame::{batch_converts, single_chunks, DataFrame, RecordBatch};
use crate::schema::{
    canonical_schema_a, convert_polars_df_schema_to_arrow_rb_schema, lemma_schema_round_trip_a,
    lemma_schema_round_trip_b, supported_schema_b,
    schema_a_to_b, schema_b_to_a, ArrowSchema,
};

verus! {

/// Number of chunks of the first column, the chunk count of an aligned frame.
pub open spec fn chunk_count(cm: Seq<Seq<ArrayData>>) -> nat {
    if cm.len() == 0 {
        0
    } else {
        cm[0].len()
    }
}

/// Every column has the same number of chunks, and chunk `k` has the same length in
/// every column.
pub open spec fn aligned(cm: Seq<Seq<ArrayData>>) -> bool {
    &&& forall|c: int| 0 <= c < cm.len() ==> (#[trigger] cm[c]).len() == chunk_count(cm)
    &&& forall|c: int, k: int|
        0 <= c < cm.len() && 0 <= k < chunk_count(cm) ==> (#[trigger] cm[c][k]).len == cm[0][k].len
}

/// The columns of batch `k` are chunk `k` of every column, in column order.
pub open spec fn transposed(cm: Seq<Seq<ArrayData>>) -> Seq<Seq<ArrayData>> {
    Seq::new(chunk_count(cm), |k: int| Seq::new(cm.len(), |c: int| cm[c][k]))
}

/// Yields a dataframe's rows as record batches, one batch per aligned chunk, in order.
#[derive(Debug, PartialEq, Eq)]
pub struct PolarsDataFrameRecordBatchReader {
    pub arrow_schema: ArrowSchema,
    /// The batches not yet yielded, in order.
    pub batches: Vec<RecordBatch>,
}

fn check_aligned(df: &DataFrame) -> (r: bool)
    ensures
        r == aligned(df.chunk_model()),
{
    let ghost cm = df.chunk_model();
    let n = df.columns.len();
    if n == 0 {
        return true;
    }
    let m = df.columns[0].chunks.len();
    let mut c: usize = 0;
    while c < n
        invariant
            n == cm.len(),
            cm == df.chunk_model(),
            n > 0,
            m == chunk_count(cm),
            c <= n,
            forall|j: int| 0 <= j < c ==> (#[trigger] cm[j]).len() == m,
            forall|j: int, k: int| 0 <= j < c && 0 <= k < m ==> (#[trigger] cm[j][k]).len == cm[0][k].len,
        decreases n - c,
    {
        let col = &df.columns[c].chunks;
        assert(col@ == cm[c as int]);
        if col.len() != m {
            return false;
        }
        let mut k: usize = 0;
        while k < m
            invariant
                n == cm.len(),
                cm == df.chunk_model(),
                n > 0,
                m == chunk_count(cm),
                c < n,
                col@ == cm[c as int],
                col@.len() == m,
                k <= m,
                forall|j: int| 0 <= j < k ==> (#[trigger] cm[c as int][j]).len == cm[0][j].len,
            decreases m - k,
        {
            if col[k].len != df.columns[0].chunks[k].len {
                return false;
            }
            k += 1;
        }
        c += 1;
    }
    true
}

/// The row counts of each column's chunks, as plain numbers, are aligned: every column has
/// the same number of chunks, and chunk `k` has the same length in every column.
pub open spec fn lengths_aligned(lens: Seq<Vec<usize>>) -> bool {
    &&& forall|c: int| 0 <= c < lens.len() ==> (#[trigger] lens[c])@.len() == lens[0]@.len()
    &&& forall|c: int, k: int|
        0 <= c < lens.len() && 0 <= k < lens[0]@.len() ==> (#[trigger] lens[c]@[k]) == lens[0]@[k]
}

/// Decides whether a frame whose columns have chunks of the given lengths can be read as
/// it is (`true`), or must first be realigned into one chunk per column (`false`).
pub fn chunks_aligned(lens: &Vec<Vec<usize>>) -> (r: bool)
    ensures
        r == lengths_aligned(lens@),
{
    let n = lens.len();
    if n == 0 {
        return true;
    }
    let m = lens[0].len();
    let mut c: usize = 0;
    while c < n
        invariant
            n == lens@.len(),
            n > 0,
            m == lens@[0]@.len(),
            c <= n,
            forall|j: int| 0 <= j < c ==> (#[trigger] lens@[j])@.len() == m,
            forall|j: int, k: int| 0 <= j < c && 0 <= k < m ==> (#[trigger] lens@[j]@[k]) == lens@[0]@[k],
        decreases n - c,
    {
        if lens[c].len() != m {
            return false;
        }
        let mut k: usize = 0;
        while k < m
            invariant
                n == lens@.len(),
                m == lens@[0]@.len(),
                c < n,
                lens@[c as int]@.len() == m,
                k <= m,
                forall|j: int| 0 <= j < k ==> (#[trigger] lens@[c as int]@[j]) == lens@[0]@[j],
            decreases m - k,
        {
            if lens[c][k] != lens[0][k] {
                return false;
            }
            k += 1;
        }
        c += 1;
    }
    true
}

impl PolarsDataFrameRecordBatchReader {
    /// Every pending batch carries the reader's schema.
    pub open spec fn wf(&self) -> bool {
        forall|k: int| 0 <= k < self.batches@.len() ==> (#[trigger] self.batches@[k]).schema@ == self.arrow_schema@
    }

    /// Prepares the batches of a dataframe whose chunks are aligned.
    ///
    /// Realigning a frame whose chunks differ across columns is the caller's job: it joins
    /// buffers, which only the dataframe engine can do. `chunks_aligned` tells, from the
    /// chunk lengths alone, whether that step is needed.
    ///
    /// Fails with `UnsupportedType` when a field has no data-access type, with
    /// `SchemaConversion` when the frame has not one series per field, and with
    /// `ArrayConversion` when its chunks are not aligned across columns. On success batch
    /// `k` holds chunk `k` of every column, under the converted schema.
    pub fn new(df: DataFrame) -> (r: Result<PolarsDataFrameRecordBatchReader, ConversionError>)
        ensures
            r is Ok <==> (schema_b_to_a(df.schema@) is Some && df.columns@.len() == df.schema@.len()
                && aligned(df.chunk_model())),
            schema_b_to_a(df.schema@) is None ==> r == Err::<
                PolarsDataFrameRecordBatchReader,
                ConversionError,
            >(ConversionError::UnsupportedType),
            schema_b_to_a(df.schema@) is Some && df.columns@.len() != df.schema@.len() ==> r
                == Err::<PolarsDataFrameRecordBatchReader, ConversionError>(
                ConversionError::SchemaConversion,
            ),
            schema_b_to_a(df.schema@) is Some && df.columns@.len() == df.schema@.len() && !aligned(
                df.chunk_model(),
            ) ==> r == Err::<PolarsDataFrameRecordBatchReader, ConversionError>(
                ConversionError::ArrayConversion,
            ),
            r is Ok ==> r->Ok_0.wf(),
            r is Ok ==> r->Ok_0.arrow_schema@ == schema_b_to_a(df.schema@)->Some_0,
            r is Ok ==> r->Ok_0.batches@.len() == chunk_count(df.chunk_model()),
            r is Ok ==> forall|k: int|
                0 <= k < r->Ok_0.batches@.len() ==> {
                    let b = #[trigger] r->Ok_0.batches@[k];
                    &&& b.schema@ == r->Ok_0.arrow_schema@
                    &&& b.columns@ == transposed(df.chunk_model())[k]
                    &&& b.num_rows == df.chunk_model()[0][k].len
                },
            r is Ok ==> forall|k: int, c: int, i: int|
                0 <= k < r->Ok_0.batches@.len() && 0 <= c < df.columns@.len() ==> #[trigger] is_null(
                    r->Ok_0.batches@[k].columns@[c],
                    i,
                ) == is_null(df.chunk_model()[c][k], i),
    {
        let arrow_schema = convert_polars_df_schema_to_arrow_rb_schema(&df.schema)?;
        if df.columns.len() != df.schema.fields.len() {
            return Err(ConversionError::SchemaConversion);
        }
        if !check_aligned(&df) {
            return Err(ConversionError::ArrayConversion);
        }
        let ghost cm = df.chunk_model();
        let ghost tr = transposed(cm);
        let n = df.columns.len();
        let mut batches: Vec<RecordBatch> = Vec::new();
        if n == 0 {
            return Ok(PolarsDataFrameRecordBatchReader { arrow_schema, batches });
        }
        let m = df.columns[0].chunks.len();
        let mut columns = df.columns;
        let mut k: usize = 0;
        while k < m
            invariant
                n == cm.len(),
                n > 0,
                m == chunk_count(cm),
                aligned(cm),
                tr == transposed(cm),
                columns@.len() == n,
                k <= m,
                forall|c: int| 0 <= c < n ==> (#[trigger] columns@[c]).chunks@ == cm[c].subrange(k as int, m as int),
                batches@.len() == k,
                forall|j: int|
                    0 <= j < k ==> {
                        let b = #[trigger] batches@[j];
                        &&& b.schema@ == arrow_schema@
                        &&& b.columns@ == tr[j]
                        &&& b.num_rows == cm[0][j].len
                    },
            decreases m - k,
        {
            let mut row: Vec<ArrayData> = Vec::new();
            let mut c: usize = 0;
            while c < n
                invariant
                    n == cm.len(),
                    n > 0,
                    m == chunk_count(cm),
                    aligned(cm),
                    columns@.len() == n,
                    k < m,
                    c <= n,
                    forall|j: int| 0 <= j < c ==> (#[trigger] columns@[j]).chunks@ == cm[j].subrange(k + 1, m as int),
                    forall|j: int| c <= j < n ==> (#[trigger] columns@[j]).chunks@ == cm[j].subrange(k as int, m as int),
                    row@.len() == c,
                    forall|j: int| 0 <= j < c ==> #[trigger] row@[j] == cm[j][k as int],
                decreases n - c,
            {
                assert(cm[c as int].len() == m);
                let chunk = columns[c].chunks.remove(0);
                assert(columns@[c as int].chunks@ =~= cm[c as int].subrange(k + 1, m as int));
                row.push(chunk);
                c += 1;
            }
            let num_rows = row[0].len;
            assert(row@ =~= tr[k as int]);
            batches.push(RecordBatch { schema: arrow_schema.clone_fields(), columns: row, num_rows });
            k += 1;
        }
        assert(batches@.len() == chunk_count(cm));
        Ok(PolarsDataFrameRecordBatchReader { arrow_schema, batches })
    }

    /// The next batch, or `None` once every batch has been yielded.
    pub fn next(&mut self) -> (r: Option<RecordBatch>)
        requires
            old(self).wf(),
        ensures
            final(self).wf(),
            r is Some ==> r->Some_0.schema@ == final(self).arrow_schema@,
            final(self).arrow_schema == old(self).arrow_schema,
            old(self).batches@.len() == 0 ==> r is None && final(self).batches@ == old(self).batches@,
            old(self).batches@.len() > 0 ==> r == Some(old(self).batches@[0]) && final(self).batches@
                == old(self).batches@.drop_first(),
    {
        if self.batches.len() == 0 {
            None
        } else {
            let b = self.batches.remove(0);
            assert(self.batches@ =~= old(self).batches@.drop_first());
            Some(b)
        }
    }

    /// The schema every yielded batch carries.
    pub fn schema(&self) -> (r: &ArrowSchema)
        ensures
            r == &self.arrow_schema,
    {
        &self.arrow_schema
    }
}

/// A batch without nulls converted to a dataframe and read back gives one batch with the
/// same schema, the same row count, and the same columns in the same order.
pub proof fn lemma_batch_fidelity(b: RecordBatch)
    requires
        b.wf(),
        canonical_schema_a(b.schema@),
        b.columns@.len() > 0,
    ensures
        schema_a_to_b(b.schema@) is Some,
        batch_converts(b, schema_a_to_b(b.schema@)->Some_0),
        schema_b_to_a(schema_a_to_b(b.schema@)->Some_0) == Some(b.schema@),
        aligned(single_chunks(b.columns@)),
        transposed(single_chunks(b.columns@)) == seq![b.columns@],
        single_chunks(b.columns@)[0][0].len == b.num_rows,
{
    lemma_schema_round_trip_a(b.schema@);
    let cm = single_chunks(b.columns@);
    assert(chunk_count(cm) == 1);
    assert forall|c: int, k: int|
        0 <= c < cm.len() && 0 <= k < chunk_count(cm) implies (#[trigger] cm[c][k]).len == cm[0][k].len by {
        assert(cm[c][k] == b.columns@[c]);
        assert(cm[0][k] == b.columns@[0]);
    }
    let t = transposed(cm);
    assert(t[0] =~= b.columns@);
    assert(t =~= seq![b.columns@]);
}

/// A dataframe of supported types with one chunk per column, read back as a batch and
/// converted again, gives the same schema and the same chunks, column by column.
pub proof fn lemma_frame_fidelity(cm: Seq<Seq<ArrayData>>, fs: Seq<FieldB>)
    requires
        supported_schema_b(fs),
        cm.len() == fs.len(),
        cm.len() > 0,
        forall|c: int| 0 <= c < cm.len() ==> (#[trigger] cm[c]).len() == 1,
        forall|c: int| 0 <= c < cm.len() ==> (#[trigger] cm[c])[0].len == cm[0][0].len,
    ensures
        schema_b_to_a(fs) is Some,
        schema_a_to_b(schema_b_to_a(fs)->Some_0) == Some(fs),
        aligned(cm),
        transposed(cm).len() == 1,
        single_chunks(transposed(cm)[0]) == cm,
{
    lemma_schema_round_trip_b(fs);
    assert forall|c: int, k: int| 0 <= c < cm.len() && 0 <= k < chunk_count(cm) implies (#[trigger] cm[c][k]).len
        == cm[0][k].len by {
        assert(k == 0);
    }
    let row = transposed(cm)[0];
    assert forall|c: int| 0 <= c < cm.len() implies #[trigger] single_chunks(row)[c] =~= cm[c] by {
        assert(row[c] == cm[c][0]);
    }
    assert(single_chunks(row) =~= cm);
}

} // verus!
