//! A schema paired with a sequence of record batches that all carry it.
use vstd::prelude::*;
use crate::dtype::ConversionError;
use crate::frame::RecordBatch;
use crate::schema::ArrowSchema;

verus! {

/// A schema fixed at construction and the batches still to be yielded, each of which
/// carries exactly that schema.
#[derive(Debug, PartialEq, Eq)]
pub struct SimpleRecordBatchReader {
    pub schema: ArrowSchema,
    pub batches: Vec<RecordBatch>,
}

impl SimpleRecordBatchReader {
    /// Every pending batch carries the reader's schema.
    pub open spec fn wf(&self) -> bool {
        forall|k: int| 0 <= k < self.batches@.len() ==> (#[trigger] self.batches@[k]).schema@ == self.schema@
    }

    /// Pairs a schema with batches, refusing with `SchemaConversion` any sequence in which
    /// a batch carries a different schema.
    pub fn new(schema: ArrowSchema, batches: Vec<RecordBatch>) -> (r: Result<
        SimpleRecordBatchReader,
        ConversionError,
    >)
        ensures
            r is Ok <==> forall|k: int| 0 <= k < batches@.len() ==> (#[trigger] batches@[k]).schema@ == schema@,
            r is Ok ==> r->Ok_0.wf(),
            r is Ok ==> r->Ok_0 == (SimpleRecordBatchReader { schema, batches }),
            r is Err ==> r->Err_0 == ConversionError::SchemaConversion,
    {
        let mut k: usize = 0;
        while k < batches.len()
            invariant
                k <= batches@.len(),
                forall|j: int| 0 <= j < k ==> (#[trigger] batches@[j]).schema@ == schema@,
            decreases batches@.len() - k,
        {
            if !batches[k].schema.same_as(&schema) {
                return Err(ConversionError::SchemaConversion);
            }
            k += 1;
        }
        Ok(SimpleRecordBatchReader { schema, batches })
    }

    /// The next batch, or `None` once every batch has been yielded.
    pub fn next(&mut self) -> (r: Option<RecordBatch>)
        requires
            old(self).wf(),
        ensures
            final(self).wf(),
            final(self).schema == old(self).schema,
            old(self).batches@.len() == 0 ==> r is None,
            old(self).batches@.len() > 0 ==> r == Some(old(self).batches@[0]) && final(self).batches@
                == old(self).batches@.drop_first(),
            r is Some ==> r->Some_0.schema@ == final(self).schema@,
    {
        if self.batches.len() == 0 {
            None
        } else {
            let b = self.batches.remove(0);
            assert(self.batches@ =~= old(self).batches@.drop_first());
            Some(b)
        }
    }

    /// The schema of every batch this reader yields.
    pub fn schema(&self) -> (r: &ArrowSchema)
        ensures
            r == &self.schema,
    {
        &self.schema
    }
}

} // verus!
