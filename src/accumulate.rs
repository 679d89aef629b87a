//! Folding a sequence of record batches into one dataframe.
use vstd::prelude::*;
use crate::dtype::{ConversionError, FieldB};
use crate::frame::{
    batch_converts, convert_arrow_rb_to_polars_df, single_chunks, stacked, DataFrame, RecordBatch,
};
use crate::schema::{
    convert_arrow_rb_schema_to_polars_df_schema, schema_a_to_b, ArrowSchema,
};
use crate::array::ArrayData;

verus! {

/// Rows of all batches together.
pub open spec fn total_rows(batches: Seq<RecordBatch>) -> int
    decreases batches.len(),
{
    if batches.len() == 0 {
        0
    } else {
        total_rows(batches.drop_last()) + batches.last().num_rows
    }
}

/// The chunks of a frame of `width` columns built from `batches`: column `c` holds the
/// `c`-th column of every batch, one chunk per batch, in the batches' order.
pub open spec fn accumulated(width: nat, batches: Seq<RecordBatch>) -> Seq<Seq<ArrayData>> {
    Seq::new(width, |c: int| Seq::new(batches.len(), |k: int| batches[k].columns@[c]))
}

/// The error appending a batch to a frame of schema `fs` fails with: `SchemaConversion` when
/// the batch does not fit the schema, else `ArrayConversion` (the row count overflows).
pub open spec fn batch_error(batch: RecordBatch, fs: Seq<FieldB>) -> ConversionError {
    if batch_converts(batch, fs) {
        ConversionError::ArrayConversion
    } else {
        ConversionError::SchemaConversion
    }
}

/// The error of the first batch whose append fails, where `rows` were held before the
/// batches; `None` when all append.
pub open spec fn first_error(rows: int, batches: Seq<RecordBatch>, fs: Seq<FieldB>) -> Option<
    ConversionError,
>
    decreases batches.len(),
{
    if batches.len() == 0 {
        None
    } else if !batch_converts(batches[0], fs) || rows + batches[0].num_rows > usize::MAX {
        Some(batch_error(batches[0], fs))
    } else {
        first_error(rows + batches[0].num_rows, batches.drop_first(), fs)
    }
}

/// Row and chunk counts of a frame being accumulated, for a caller that appends the data
/// itself.
#[derive(Debug, PartialEq, Eq, Structural, Clone, Copy)]
pub struct Tally {
    pub height: usize,
    pub chunks: usize,
}

impl Tally {
    /// An empty frame: no rows, no chunks.
    pub fn new() -> (r: Tally)
        ensures
            r.height == 0,
            r.chunks == 0,
    {
        Tally { height: 0, chunks: 0 }
    }

    /// Counts one appended batch of `num_rows` rows as one more chunk. Fails with
    /// `ArrayConversion`, leaving the counts unchanged, when a count would overflow.
    pub fn record(&mut self, num_rows: usize) -> (r: Result<(), ConversionError>)
        ensures
            r is Ok <==> (old(self).height + num_rows <= usize::MAX && old(self).chunks + 1
                <= usize::MAX),
            r is Ok ==> final(self).height == old(self).height + num_rows && final(self).chunks
                == old(self).chunks + 1,
            r is Err ==> *final(self) == *old(self) && r->Err_0 == ConversionError::ArrayConversion,
    {
        if num_rows > usize::MAX - self.height || self.chunks == usize::MAX {
            return Err(ConversionError::ArrayConversion);
        }
        self.height = self.height + num_rows;
        self.chunks = self.chunks + 1;
        Ok(())
    }
}

/// Accumulates record batches, in arrival order, into one dataframe.
///
/// It starts with an empty frame of the converted schema; each batch is converted and
/// appended below the rows already held. The frame held at any point is a valid partial
/// result.
#[derive(Debug, PartialEq, Eq)]
pub struct FrameAccumulator {
    pub frame: DataFrame,
}

impl FrameAccumulator {
    /// One series per field of the frame's schema.
    pub open spec fn wf(&self) -> bool {
        self.frame.columns@.len() == self.frame.schema@.len()
    }

    /// An accumulator holding an empty frame of the converted schema.
    ///
    /// Fails with `UnsupportedType` exactly when a field of the schema has no
    /// dataframe-side type.
    pub fn new(arrow_schema: &ArrowSchema) -> (r: Result<FrameAccumulator, ConversionError>)
        ensures
            r is Ok <==> schema_a_to_b(arrow_schema@) is Some,
            r is Err ==> r->Err_0 == ConversionError::UnsupportedType,
            r is Ok ==> r->Ok_0.wf() && r->Ok_0.frame.wf(),
            r is Ok ==> r->Ok_0.frame.schema@ == schema_a_to_b(arrow_schema@)->Some_0,
            r is Ok ==> r->Ok_0.frame.height == 0,
            r is Ok ==> r->Ok_0.frame.chunk_model() == accumulated(
                arrow_schema@.len(),
                Seq::<RecordBatch>::empty(),
            ),
    {
        let schema = convert_arrow_rb_schema_to_polars_df_schema(arrow_schema)?;
        let frame = DataFrame::empty(schema);
        let ghost want = accumulated(arrow_schema@.len(), Seq::<RecordBatch>::empty());
        assert forall|c: int| 0 <= c < want.len() implies #[trigger] frame.chunk_model()[c] =~= want[c] by {}
        assert(frame.chunk_model() =~= want);
        Ok(FrameAccumulator { frame })
    }

    /// Converts one batch and appends it below the rows held so far.
    ///
    /// Succeeds exactly when the batch converts to the frame's schema and the new row count
    /// fits in `usize`; on failure the frame is left as it was.
    pub fn push(&mut self, batch: RecordBatch) -> (r: Result<(), ConversionError>)
        requires
            old(self).wf(),
        ensures
            final(self).wf(),
            r is Ok <==> (batch_converts(batch, old(self).frame.schema@) && old(self).frame.height
                + batch.num_rows <= usize::MAX),
            r is Err ==> *final(self) == *old(self),
            r is Err ==> r->Err_0 == batch_error(batch, old(self).frame.schema@),
            r is Ok ==> final(self).frame.schema == old(self).frame.schema,
            r is Ok && old(self).frame.wf() && batch.wf() ==> final(self).frame.wf(),
            r is Ok ==> final(self).frame.height == old(self).frame.height + batch.num_rows,
            r is Ok ==> final(self).frame.chunk_model() == stacked(
                old(self).frame.chunk_model(),
                single_chunks(batch.columns@),
            ),
    {
        let df = convert_arrow_rb_to_polars_df(batch, &self.frame.schema)?;
        assert(df.chunk_model().len() == df.columns@.len());
        let r = self.frame.vstack(df);
        assert(self.frame.chunk_model().len() == self.frame.columns@.len());
        r
    }

    /// The accumulated frame.
    pub fn finish(self) -> (r: DataFrame)
        ensures
            r == self.frame,
    {
        self.frame
    }
}

proof fn lemma_total_rows_push(batches: Seq<RecordBatch>, b: RecordBatch)
    ensures
        total_rows(batches.push(b)) == total_rows(batches) + b.num_rows,
{
    assert(batches.push(b).drop_last() =~= batches);
}

proof fn lemma_total_rows_prefix(batches: Seq<RecordBatch>, k: int)
    requires
        0 <= k <= batches.len(),
    ensures
        total_rows(batches.subrange(0, k)) <= total_rows(batches),
        total_rows(batches) >= 0,
    decreases batches.len(),
{
    if batches.len() > 0 {
        if k == batches.len() {
            assert(batches.subrange(0, k) =~= batches);
            lemma_total_rows_prefix(batches.drop_last(), 0);
        } else {
            assert(batches.drop_last().subrange(0, k) =~= batches.subrange(0, k));
            lemma_total_rows_prefix(batches.drop_last(), k);
        }
    } else {
        assert(batches.subrange(0, k) =~= batches);
    }
}

/// Accumulates the batches, in order, into one dataframe of the converted schema.
///
/// Succeeds exactly when the schema converts, every batch converts to the resulting
/// dataframe schema, and the total row count fits in `usize`. The first failure ends the
/// accumulation and is returned; no partial frame comes back. On success column `c` of the
/// frame holds the `c`-th column of every batch, one chunk per batch in batch order, and
/// the frame's height is the sum of the batches' row counts.
pub fn into_polars(arrow_schema: &ArrowSchema, batches: Vec<RecordBatch>) -> (r: Result<
    DataFrame,
    ConversionError,
>)
    ensures
        r is Ok <==> ({
            &&& schema_a_to_b(arrow_schema@) is Some
            &&& forall|k: int|
                0 <= k < batches@.len() ==> batch_converts(
                    #[trigger] batches@[k],
                    schema_a_to_b(arrow_schema@)->Some_0,
                )
            &&& total_rows(batches@) <= usize::MAX
        }),
        schema_a_to_b(arrow_schema@) is None ==> r == Err::<DataFrame, ConversionError>(
            ConversionError::UnsupportedType,
        ),
        schema_a_to_b(arrow_schema@) is Some && r is Err ==> Some(r->Err_0) == first_error(
            0,
            batches@,
            schema_a_to_b(arrow_schema@)->Some_0,
        ),
        r is Ok ==> r->Ok_0.schema@ == schema_a_to_b(arrow_schema@)->Some_0,
        r is Ok ==> r->Ok_0.height == total_rows(batches@),
        r is Ok ==> r->Ok_0.chunk_model() == accumulated(arrow_schema@.len(), batches@),
{
    let mut acc = match FrameAccumulator::new(arrow_schema) {
        Ok(a) => a,
        Err(e) => {
            return Err(e);
        },
    };
    let ghost fs: Seq<FieldB> = schema_a_to_b(arrow_schema@)->Some_0;
    let ghost all = batches@;
    let ghost width = arrow_schema@.len();
    let mut rest = batches;
    let n = rest.len();
    let mut i: usize = 0;
    assert(all.subrange(0, 0) =~= Seq::<RecordBatch>::empty());
    assert(all.subrange(0, n as int) =~= all);
    while i < n
        invariant
            n == all.len(),
            all == batches@,
            i <= n,
            rest@ == all.subrange(i as int, n as int),
            acc.wf(),
            acc.frame.schema@ == fs,
            schema_a_to_b(arrow_schema@) == Some(fs),
            fs.len() == width,
            acc.frame.height == total_rows(all.subrange(0, i as int)),
            acc.frame.chunk_model() == accumulated(width, all.subrange(0, i as int)),
            forall|k: int| 0 <= k < i ==> batch_converts(#[trigger] all[k], fs),
            first_error(0, all, fs) == first_error(acc.frame.height as int, all.subrange(i as int, n as int), fs),
        decreases n - i,
    {
        let b = rest.remove(0);
        assert(b == all[i as int]);
        proof {
            lemma_total_rows_push(all.subrange(0, i as int), b);
            assert(all.subrange(0, i as int).push(b) =~= all.subrange(0, i + 1));
            lemma_total_rows_prefix(all, i + 1);
        }
        proof {
            let rest_s = all.subrange(i as int, n as int);
            assert(rest_s[0] == b);
            assert(rest_s.drop_first() =~= all.subrange(i + 1, n as int));
        }
        let ghost before = acc.frame.chunk_model();
        let ghost old_height = acc.frame.height;
        match acc.push(b) {
            Ok(()) => {},
            Err(e) => {
                proof {
                    if total_rows(all) <= usize::MAX {
                        assert(old_height + b.num_rows <= usize::MAX);
                        assert(!batch_converts(all[i as int], fs));
                    }
                    assert(total_rows(all) > usize::MAX || !(forall|k: int|
                        0 <= k < all.len() ==> batch_converts(#[trigger] all[k], fs)));
                }
                return Err(e);
            },
        }
        proof {
            let prev = all.subrange(0, i as int);
            let next = all.subrange(0, i + 1);
            let got = acc.frame.chunk_model();
            let want = accumulated(width, next);
            assert forall|c: int| 0 <= c < width implies #[trigger] got[c] =~= want[c] by {
                assert(got[c] == before[c] + seq![b.columns@[c]]);
                assert(before[c] == accumulated(width, prev)[c]);
            }
            assert(got =~= want);
        }
        i += 1;
        assert(rest@ =~= all.subrange(i as int, n as int));
    }
    assert(all.subrange(0, n as int) =~= all);
    Ok(acc.finish())
}

} // verus!
