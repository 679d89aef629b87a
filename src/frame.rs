//! Record batches, dataframes, and the conversion of one into the other through a single
//! struct-typed array per batch.
use vstd::prelude::*;
use crate::array::{
    convert_arrow_rs_array_to_polars_arrow_array, is_null, struct_layout_consistent, ArrayData,
    ArrowArray,
    PolarsArray,
};
use crate::dtype::{
    b_to_a, ArrowField, ArrowType, ConversionError, FieldB, PolarsField, PolarsType, TypeA, TypeB,
};
use crate::schema::{
    convert_polars_arrow_field_to_arrow_rs_field, convert_polars_df_schema_to_arrow_rb_schema,
    field_b_to_a, schema_b_to_a, ArrowSchema, PolarsSchema,
};

verus! {

/// Equal-length columns under one data-access schema.
#[derive(Debug, PartialEq, Eq)]
pub struct RecordBatch {
    pub schema: ArrowSchema,
    pub columns: Vec<ArrayData>,
    pub num_rows: usize,
}

impl RecordBatch {
    /// One column per field, each with `num_rows` rows.
    pub open spec fn wf(&self) -> bool {
        &&& self.columns@.len() == self.schema@.len()
        &&& forall|i: int| 0 <= i < self.columns@.len() ==> (#[trigger] self.columns@[i]).len == self.num_rows
    }

    /// Builds a batch, rejecting columns that do not fit the schema.
    pub fn try_new(schema: ArrowSchema, columns: Vec<ArrayData>, num_rows: usize) -> (r: Result<
        RecordBatch,
        ConversionError,
    >)
        ensures
            r is Ok <==> (RecordBatch { schema, columns, num_rows }).wf(),
            r is Ok ==> r->Ok_0 == (RecordBatch { schema, columns, num_rows }),
            r is Err ==> r->Err_0 == ConversionError::SchemaConversion,
    {
        if columns.len() != schema.fields.len() {
            return Err(ConversionError::SchemaConversion);
        }
        let mut i: usize = 0;
        while i < columns.len()
            invariant
                i <= columns@.len(),
                forall|j: int| 0 <= j < i ==> (#[trigger] columns@[j]).len == num_rows,
            decreases columns@.len() - i,
        {
            if columns[i].len != num_rows {
                return Err(ConversionError::SchemaConversion);
            }
            i += 1;
        }
        Ok(RecordBatch { schema, columns, num_rows })
    }

    pub fn num_rows(&self) -> (r: usize)
        ensures
            r == self.num_rows,
    {
        self.num_rows
    }

    pub fn num_columns(&self) -> (r: usize)
        ensures
            r == self.columns@.len(),
    {
        self.columns.len()
    }
}

/// The model of a struct type whose children are the given fields.
pub proof fn lemma_struct_view_a(fields: Vec<ArrowField>)
    ensures
        ArrowType::Struct(fields)@ == TypeA::Struct((ArrowSchema { fields })@),
{
    assert(ArrowType::Struct(fields)@->Struct_0 =~= (ArrowSchema { fields })@);
}

/// The model of a struct type whose children are the given fields.
pub proof fn lemma_struct_view_b(fields: Vec<PolarsField>)
    ensures
        PolarsType::Struct(fields)@ == TypeB::Struct((PolarsSchema { fields })@),
{
    assert(PolarsType::Struct(fields)@->Struct_0 =~= (PolarsSchema { fields })@);
}

/// A dataframe struct type maps exactly as the schema of its fields does.
pub proof fn lemma_struct_maps_as_schema(gs: Seq<FieldB>)
    ensures
        b_to_a(TypeB::Struct(gs)) == match schema_b_to_a(gs) {
            Some(fs) => Some(TypeA::Struct(fs)),
            None => None,
        },
{
    if schema_b_to_a(gs) is Some {
        assert forall|i: int| 0 <= i < gs.len() implies b_to_a(#[trigger] gs[i].ty) is Some by {
            assert(field_b_to_a(gs[i]) is Some);
        }
        assert(b_to_a(TypeB::Struct(gs))->Some_0->Struct_0 =~= schema_b_to_a(gs)->Some_0);
    } else {
        let i = choose|i: int| 0 <= i < gs.len() && !(field_b_to_a(#[trigger] gs[i]) is Some);
        assert(!(b_to_a(gs[i].ty) is Some));
    }
}

/// Wraps a whole batch as one struct-typed array: the schema's fields become the struct's
/// children types and the columns its child arrays, with no nulls at the top level.
pub fn batch_to_wrapped_struct(batch: RecordBatch) -> (r: ArrowArray)
    ensures
        r.data_type@ == TypeA::Struct(batch.schema@),
        r.data.len == batch.num_rows,
        r.data.validity is None,
        r.data.buffers@.len() == 0,
        r.data.children == batch.columns,
        batch.wf() ==> struct_layout_consistent(r.data),
{
    proof {
        lemma_struct_view_a(batch.schema.fields);
    }
    ArrowArray {
        data_type: ArrowType::Struct(batch.schema.fields),
        data: ArrayData {
            len: batch.num_rows,
            validity: None,
            buffers: Vec::new(),
            children: batch.columns,
        },
    }
}

/// Copies the fields of a dataframe schema.
pub fn duplicate_fields(fields: &Vec<PolarsField>) -> (r: Vec<PolarsField>)
    ensures
        (PolarsSchema { fields: r })@ == (PolarsSchema { fields: *fields })@,
{
    let mut out: Vec<PolarsField> = Vec::new();
    let mut i: usize = 0;
    while i < fields.len()
        invariant
            i <= fields@.len(),
            out@.len() == i,
            forall|j: int| 0 <= j < i ==> #[trigger] out@[j]@ == fields@[j]@,
        decreases fields@.len() - i,
    {
        out.push(fields[i].duplicate());
        i += 1;
    }
    assert((PolarsSchema { fields: out })@ =~= (PolarsSchema { fields: *fields })@);
    out
}

/// Splits a struct-typed dataframe array back into its columns, after checking that its
/// children are exactly the schema's fields, in count and in order.
pub fn wrapped_struct_to_columns(array: PolarsArray, schema: &PolarsSchema) -> (r: Result<
    Vec<ArrayData>,
    ConversionError,
>)
    ensures
        r is Ok <==> (array.dtype@ == TypeB::Struct(schema@) && array.data.children@.len()
            == schema@.len()),
        r is Ok ==> r->Ok_0 == array.data.children,
        r is Err ==> r->Err_0 == ConversionError::SchemaConversion,
{
    let fields = duplicate_fields(&schema.fields);
    proof {
        lemma_struct_view_b(fields);
    }
    let expected = PolarsType::Struct(fields);
    if !array.dtype.same_as(&expected) || array.data.children.len() != schema.fields.len() {
        return Err(ConversionError::SchemaConversion);
    }
    Ok(array.data.children)
}


/// One column of a dataframe, held as a sequence of chunks.
#[derive(Debug, PartialEq, Eq)]
pub struct Series {
    pub chunks: Vec<ArrayData>,
}

/// A dataframe: a schema, one series per field, and the row count shared by all series.
#[derive(Debug, PartialEq, Eq)]
pub struct DataFrame {
    pub schema: PolarsSchema,
    pub columns: Vec<Series>,
    pub height: usize,
}

/// Each column as a single chunk.
pub open spec fn single_chunks(columns: Seq<ArrayData>) -> Seq<Seq<ArrayData>> {
    Seq::new(columns.len(), |c: int| seq![columns[c]])
}

/// Two frames stacked vertically: column by column, the chunks of `top` then those of
/// `bottom`.
pub open spec fn stacked(top: Seq<Seq<ArrayData>>, bottom: Seq<Seq<ArrayData>>) -> Seq<Seq<ArrayData>> {
    Seq::new(top.len(), |c: int| top[c] + bottom[c])
}

/// Rows of a column: the lengths of its chunks added up.
pub open spec fn rows(chunks: Seq<ArrayData>) -> int
    decreases chunks.len(),
{
    if chunks.len() == 0 {
        0
    } else {
        rows(chunks.drop_last()) + chunks.last().len
    }
}

/// Rows of chunks placed one after the other add up.
pub proof fn lemma_rows_concat(a: Seq<ArrayData>, b: Seq<ArrayData>)
    ensures
        rows(a + b) == rows(a) + rows(b),
    decreases b.len(),
{
    if b.len() > 0 {
        lemma_rows_concat(a, b.drop_last());
        assert((a + b).drop_last() =~= a + b.drop_last());
    } else {
        assert(a + b =~= a);
    }
}

impl DataFrame {
    /// One series per schema field, and every series holds `height` rows.
    pub open spec fn wf(&self) -> bool {
        &&& self.columns@.len() == self.schema@.len()
        &&& forall|c: int| 0 <= c < self.columns@.len() ==> rows(#[trigger] self.chunk_model()[c]) == self.height
    }

    /// The chunks of every column, in column order.
    pub open spec fn chunk_model(&self) -> Seq<Seq<ArrayData>> {
        self.columns@.map_values(|s: Series| s.chunks@)
    }

    /// A frame with the given schema, one empty series per field and no rows.
    pub fn empty(schema: PolarsSchema) -> (r: DataFrame)
        ensures
            r.wf(),
            r.schema == schema,
            r.height == 0,
            r.chunk_model().len() == schema@.len(),
            forall|c: int| 0 <= c < schema@.len() ==> (#[trigger] r.chunk_model()[c]).len() == 0,
    {
        let mut columns: Vec<Series> = Vec::new();
        let mut i: usize = 0;
        while i < schema.fields.len()
            invariant
                i <= schema.fields@.len(),
                columns@.len() == i,
                forall|c: int| 0 <= c < i ==> (#[trigger] columns@[c]).chunks@.len() == 0,
            decreases schema.fields@.len() - i,
        {
            columns.push(Series { chunks: Vec::new() });
            i += 1;
        }
        let r = DataFrame { schema, columns, height: 0 };
        assert forall|c: int| 0 <= c < r.columns@.len() implies rows(#[trigger] r.chunk_model()[c]) == 0 by {
            assert(r.chunk_model()[c].len() == 0);
        }
        r
    }

    pub fn height(&self) -> (r: usize)
        ensures
            r == self.height,
    {
        self.height
    }

    pub fn width(&self) -> (r: usize)
        ensures
            r == self.columns@.len(),
    {
        self.columns.len()
    }

    /// The number of chunks of the first column; zero for a frame without columns.
    pub fn n_chunks(&self) -> (r: usize)
        ensures
            self.columns@.len() == 0 ==> r == 0,
            self.columns@.len() > 0 ==> r == self.chunk_model()[0].len(),
    {
        if self.columns.len() == 0 {
            0
        } else {
            self.columns[0].chunks.len()
        }
    }

    /// Appends the rows of `other` below this frame's rows, column by column, keeping
    /// every chunk of both in order.
    ///
    /// Fails with `SchemaConversion` when the frames have different schemas or numbers of
    /// columns, and with `ArrayConversion` when the total row count does not fit in
    /// `usize`; the frame is then left as it was.
    pub fn vstack(&mut self, other: DataFrame) -> (r: Result<(), ConversionError>)
        ensures
            (old(self).schema@ != other.schema@ || old(self).columns@.len() != other.columns@.len())
                ==> r == Err::<(), ConversionError>(ConversionError::SchemaConversion),
            (old(self).schema@ == other.schema@ && old(self).columns@.len() == other.columns@.len())
                ==> (r is Ok <==> old(self).height + other.height <= usize::MAX),
            r is Err ==> *final(self) == *old(self),
            r is Err && old(self).schema@ == other.schema@ && old(self).columns@.len()
                == other.columns@.len() ==> r->Err_0 == ConversionError::ArrayConversion,
            r is Ok ==> final(self).schema == old(self).schema,
            r is Ok && old(self).wf() && other.wf() ==> final(self).wf(),
            r is Ok ==> final(self).height == old(self).height + other.height,
            r is Ok ==> final(self).chunk_model() == stacked(
                old(self).chunk_model(),
                other.chunk_model(),
            ),
    {
        if !self.schema.same_as(&other.schema) || self.columns.len() != other.columns.len() {
            return Err(ConversionError::SchemaConversion);
        }
        let height = match self.height.checked_add(other.height) {
            Some(h) => h,
            None => {
                return Err(ConversionError::ArrayConversion);
            },
        };
        let ghost top = self.chunk_model();
        let ghost bottom = other.chunk_model();
        let mut rest: Vec<Series> = Vec::new();
        std::mem::swap(&mut rest, &mut self.columns);
        let mut below = other.columns;
        let ghost rest0 = rest@;
        let ghost below0 = below@;
        let n = rest.len();
        let mut out: Vec<Series> = Vec::new();
        let mut i: usize = 0;
        while i < n
            invariant
                n == rest0.len(),
                n == below0.len(),
                i <= n,
                rest@ == rest0.subrange(i as int, n as int),
                below@ == below0.subrange(i as int, n as int),
                top == rest0.map_values(|s: Series| s.chunks@),
                bottom == below0.map_values(|s: Series| s.chunks@),
                out@.len() == i,
                forall|c: int| 0 <= c < i ==> (#[trigger] out@[c]).chunks@ == top[c] + bottom[c],
            decreases n - i,
        {
            let mut s = rest.remove(0);
            let mut b = below.remove(0);
            assert(s == rest0[i as int]);
            assert(b == below0[i as int]);
            s.chunks.append(&mut b.chunks);
            out.push(s);
            i += 1;
            assert(rest@ =~= rest0.subrange(i as int, n as int));
            assert(below@ =~= below0.subrange(i as int, n as int));
        }
        self.columns = out;
        self.height = height;
        assert(self.chunk_model() =~= stacked(top, bottom));
        proof {
            if old(self).wf() && other.wf() {
                assert forall|c: int| 0 <= c < self.columns@.len() implies rows(
                    #[trigger] self.chunk_model()[c],
                ) == self.height by {
                    lemma_rows_concat(top[c], bottom[c]);
                }
            }
        }
        Ok(())
    }
}

/// A batch converts to a dataframe of schema `fs`: one column per field, and `fs` maps
/// back field by field onto exactly the batch's schema, so every column already has the
/// layout the dataframe side imports.
pub open spec fn batch_converts(batch: RecordBatch, fs: Seq<FieldB>) -> bool {
    &&& batch.schema@.len() == fs.len()
    &&& batch.columns@.len() == fs.len()
    &&& schema_b_to_a(fs) == Some(batch.schema@)
}

/// The dataframe type of a whole batch wrapped as one struct: the schema's fields as the
/// struct's children.
pub fn struct_target(schema: &PolarsSchema) -> (r: PolarsType)
    ensures
        r@ == TypeB::Struct(schema@),
{
    let fields = duplicate_fields(&schema.fields);
    proof {
        lemma_struct_view_b(fields);
    }
    PolarsType::Struct(fields)
}

/// Checks, before any array is handed over, that a batch with schema `batch_schema` and
/// `n_columns` columns fits the dataframe schema `target`: the same field count, and
/// `target` mapped back to the data-access side is exactly `batch_schema` (names, types,
/// nullability, order). A type not in its canonical form therefore fails too, since the
/// dataframe side would import its data with another layout. Any mismatch is
/// `SchemaConversion`.
pub fn check_batch(batch_schema: &ArrowSchema, n_columns: usize, target: &PolarsSchema) -> (r: Result<
    (),
    ConversionError,
>)
    ensures
        r is Ok <==> (batch_schema@.len() == target@.len() && n_columns == target@.len()
            && schema_b_to_a(target@) == Some(batch_schema@)),
        r is Err ==> r->Err_0 == ConversionError::SchemaConversion,
{
    let n = target.fields.len();
    if batch_schema.fields.len() != n || n_columns != n {
        return Err(ConversionError::SchemaConversion);
    }
    match convert_polars_df_schema_to_arrow_rb_schema(target) {
        Ok(mapped) => {
            if mapped.same_as(batch_schema) {
                Ok(())
            } else {
                Err(ConversionError::SchemaConversion)
            }
        },
        Err(_) => Err(ConversionError::SchemaConversion),
    }
}

/// The first position at which `target`, mapped back to the data-access side, differs
/// from a batch schema, naming the field a `SchemaConversion` failure comes from: a field
/// without a counterpart or with another name, type or nullability, or the first position
/// only one of the two schemas has. `None` exactly when the mapped schema is the batch's.
pub fn first_mismatched_field(batch_schema: &ArrowSchema, target: &PolarsSchema) -> (r: Option<usize>)
    ensures
        r is None <==> schema_b_to_a(target@) == Some(batch_schema@),
        r is Some ==> forall|j: int| 0 <= j < r->Some_0 ==> field_b_to_a(#[trigger] target@[j]) == Some(
            batch_schema@[j],
        ),
        r is Some ==> (r->Some_0 == batch_schema@.len() || r->Some_0 == target@.len()
            || field_b_to_a(target@[r->Some_0 as int]) != Some(batch_schema@[r->Some_0 as int])),
{
    let ghost fs = batch_schema@;
    let ghost gs = target@;
    let mut i: usize = 0;
    while i < batch_schema.fields.len() && i < target.fields.len()
        invariant
            fs == batch_schema@,
            gs == target@,
            i <= fs.len(),
            i <= gs.len(),
            forall|j: int| 0 <= j < i ==> field_b_to_a(#[trigger] gs[j]) == Some(fs[j]),
        decreases fs.len() - i,
    {
        let same = match convert_polars_arrow_field_to_arrow_rs_field(target.fields[i].duplicate()) {
            Ok(g) => {
                let f = &batch_schema.fields[i];
                g.name == f.name && g.nullable == f.nullable && g.data_type.same_as(&f.data_type)
            },
            Err(_) => false,
        };
        if !same {
            proof {
                if schema_b_to_a(gs) == Some(fs) {
                    assert(field_b_to_a(gs[i as int]) is Some);
                    assert(schema_b_to_a(gs)->Some_0[i as int] == field_b_to_a(gs[i as int])->Some_0);
                }
            }
            return Some(i);
        }
        i += 1;
    }
    if batch_schema.fields.len() != target.fields.len() {
        proof {
            if schema_b_to_a(gs) == Some(fs) {
                assert(schema_b_to_a(gs)->Some_0.len() == gs.len());
            }
        }
        return Some(i);
    }
    assert(schema_b_to_a(gs) is Some);
    assert(schema_b_to_a(gs)->Some_0 =~= fs);
    None
}

/// Converts a record batch into a one-chunk dataframe of the given schema.
///
/// The batch is first checked against the schema (`check_batch`): a different field count,
/// or a schema that does not map back onto exactly the batch's, fails with
/// `SchemaConversion` before any array is converted. The whole batch then crosses as one
/// struct-typed array, and every column becomes a series of one chunk holding exactly that
/// column's data.
pub fn convert_arrow_rb_to_polars_df(arrow_rb: RecordBatch, polars_schema: &PolarsSchema) -> (r: Result<
    DataFrame,
    ConversionError,
>)
    ensures
        r is Ok <==> batch_converts(arrow_rb, polars_schema@),
        r is Err ==> r->Err_0 == ConversionError::SchemaConversion,
        r is Ok ==> r->Ok_0.schema@ == polars_schema@,
        r is Ok && arrow_rb.wf() ==> r->Ok_0.wf(),
        r is Ok ==> r->Ok_0.height == arrow_rb.num_rows,
        r is Ok ==> r->Ok_0.chunk_model() == single_chunks(arrow_rb.columns@),
        r is Ok ==> forall|c: int, i: int|
            0 <= c < arrow_rb.columns@.len() ==> #[trigger] is_null(r->Ok_0.chunk_model()[c][0], i)
                == is_null(arrow_rb.columns@[c], i),
{
    let n = polars_schema.fields.len();
    check_batch(&arrow_rb.schema, arrow_rb.columns.len(), polars_schema)?;
    let ghost fs = arrow_rb.schema@;
    let ghost cols = arrow_rb.columns@;
    let ghost batch_wf = arrow_rb.wf();
    let num_rows = arrow_rb.num_rows;
    let wrapped = batch_to_wrapped_struct(arrow_rb);
    proof {
        lemma_struct_maps_as_schema(polars_schema@);
    }
    let target = struct_target(polars_schema);
    let converted = match convert_arrow_rs_array_to_polars_arrow_array(wrapped, target) {
        Ok(a) => a,
        Err((e, _)) => {
            return Err(e);
        },
    };
    let mut columns = match wrapped_struct_to_columns(converted, polars_schema) {
        Ok(c) => c,
        Err(e) => {
            return Err(e);
        },
    };
    let mut series: Vec<Series> = Vec::new();
    let mut i: usize = 0;
    while i < n
        invariant
            n == cols.len(),
            i <= n,
            columns@ == cols.subrange(i as int, n as int),
            series@.len() == i,
            forall|c: int| 0 <= c < i ==> (#[trigger] series@[c]).chunks@ == seq![cols[c]],
        decreases n - i,
    {
        let col = columns.remove(0);
        assert(col == cols[i as int]);
        let mut chunks: Vec<ArrayData> = Vec::new();
        chunks.push(col);
        series.push(Series { chunks });
        i += 1;
        assert(columns@ =~= cols.subrange(i as int, n as int));
    }
    let schema = PolarsSchema { fields: duplicate_fields(&polars_schema.fields) };
    let df = DataFrame { schema, columns: series, height: num_rows };
    assert(df.chunk_model() =~= single_chunks(cols));
    proof {
        if batch_wf {
            assert forall|c: int| 0 <= c < df.columns@.len() implies rows(#[trigger] df.chunk_model()[c])
                == df.height by {
                let one = df.chunk_model()[c];
                assert(one.drop_last() =~= Seq::<ArrayData>::empty());
                assert(one.last() == cols[c]);
                assert(rows(one.drop_last()) == 0);
                assert(cols[c].len == num_rows);
                assert(rows(one) == rows(one.drop_last()) + one.last().len);
            }
        }
    }
    Ok(df)
}

} // verus!
