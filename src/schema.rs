//! Fields and schemas of both sides, and their conversion.
use vstd::prelude::*;
use crate::dtype::{
    a_to_b, b_to_a, canonical_a, lemma_round_trip_a, lemma_round_trip_b, supported_b, to_a, to_b,
    ArrowField, ConversionError, FieldA, FieldB, PolarsField,
};

verus! {

/// Ordered fields of a record batch on the data-access side.
#[derive(Debug, PartialEq, Eq)]
pub struct ArrowSchema {
    pub fields: Vec<ArrowField>,
}

/// Ordered fields of a dataframe.
#[derive(Debug, PartialEq, Eq)]
pub struct PolarsSchema {
    pub fields: Vec<PolarsField>,
}

impl View for ArrowSchema {
    type V = Seq<FieldA>;

    open spec fn view(&self) -> Seq<FieldA> {
        self.fields@.map_values(|f: ArrowField| f@)
    }
}

impl View for PolarsSchema {
    type V = Seq<FieldB>;

    open spec fn view(&self) -> Seq<FieldB> {
        self.fields@.map_values(|f: PolarsField| f@)
    }
}

/// A field with its type mapped to the dataframe side; name and nullability are kept.
pub open spec fn field_a_to_b(f: FieldA) -> Option<FieldB> {
    match a_to_b(f.ty) {
        Some(t) => Some(FieldB { name: f.name, ty: t, nullable: f.nullable }),
        None => None,
    }
}

/// A field with its type mapped to the data-access side; name and nullability are kept.
pub open spec fn field_b_to_a(f: FieldB) -> Option<FieldA> {
    match b_to_a(f.ty) {
        Some(t) => Some(FieldA { name: f.name, ty: t, nullable: f.nullable }),
        None => None,
    }
}

/// Positional field conversion of a whole schema; `None` when any field has no mapping.
pub open spec fn schema_a_to_b(fs: Seq<FieldA>) -> Option<Seq<FieldB>> {
    if forall|i: int| 0 <= i < fs.len() ==> field_a_to_b(#[trigger] fs[i]) is Some {
        Some(Seq::new(fs.len(), |i: int| field_a_to_b(fs[i])->Some_0))
    } else {
        None
    }
}

/// Positional field conversion of a whole schema; `None` when any field has no mapping.
pub open spec fn schema_b_to_a(fs: Seq<FieldB>) -> Option<Seq<FieldA>> {
    if forall|i: int| 0 <= i < fs.len() ==> field_b_to_a(#[trigger] fs[i]) is Some {
        Some(Seq::new(fs.len(), |i: int| field_b_to_a(fs[i])->Some_0))
    } else {
        None
    }
}

/// Every field of the schema has a canonical data-access type.
pub open spec fn canonical_schema_a(fs: Seq<FieldA>) -> bool {
    forall|i: int| 0 <= i < fs.len() ==> canonical_a(#[trigger] fs[i].ty)
}

/// Every field of the schema has a type with a columnar layout.
pub open spec fn supported_schema_b(fs: Seq<FieldB>) -> bool {
    forall|i: int| 0 <= i < fs.len() ==> supported_b(#[trigger] fs[i].ty)
}

/// A schema built from canonical types comes back from the dataframe side with the same
/// field names, types, nullability and order.
pub proof fn lemma_schema_round_trip_a(fs: Seq<FieldA>)
    requires
        canonical_schema_a(fs),
    ensures
        schema_a_to_b(fs) is Some,
        supported_schema_b(schema_a_to_b(fs)->Some_0),
        schema_b_to_a(schema_a_to_b(fs)->Some_0) == Some(fs),
{
    assert forall|i: int| 0 <= i < fs.len() implies field_a_to_b(#[trigger] fs[i]) is Some
        && supported_b(field_a_to_b(fs[i])->Some_0.ty)
        && field_b_to_a(field_a_to_b(fs[i])->Some_0) == Some(fs[i]) by {
        lemma_round_trip_a(fs[i].ty);
    }
    let gs = schema_a_to_b(fs)->Some_0;
    assert forall|i: int| 0 <= i < gs.len() implies field_b_to_a(#[trigger] gs[i]) is Some
        && supported_b(gs[i].ty) by {
        assert(gs[i] == field_a_to_b(fs[i])->Some_0);
    }
    assert(schema_b_to_a(gs)->Some_0 =~= fs);
}

/// A dataframe schema of supported types comes back from the data-access side with the
/// same field names, types, nullability and order.
pub proof fn lemma_schema_round_trip_b(fs: Seq<FieldB>)
    requires
        supported_schema_b(fs),
    ensures
        schema_b_to_a(fs) is Some,
        canonical_schema_a(schema_b_to_a(fs)->Some_0),
        schema_a_to_b(schema_b_to_a(fs)->Some_0) == Some(fs),
{
    assert forall|i: int| 0 <= i < fs.len() implies field_b_to_a(#[trigger] fs[i]) is Some
        && canonical_a(field_b_to_a(fs[i])->Some_0.ty)
        && field_a_to_b(field_b_to_a(fs[i])->Some_0) == Some(fs[i]) by {
        lemma_round_trip_b(fs[i].ty);
    }
    let gs = schema_b_to_a(fs)->Some_0;
    assert forall|i: int| 0 <= i < gs.len() implies field_a_to_b(#[trigger] gs[i]) is Some
        && canonical_a(gs[i].ty) by {
        assert(gs[i] == field_b_to_a(fs[i])->Some_0);
    }
    assert(schema_a_to_b(gs)->Some_0 =~= fs);
}

/// Converts a data-access field to a dataframe field of the mapped type.
pub fn convert_arrow_rs_field_to_polars_arrow_field(arrow_rs_field: &ArrowField) -> (r: Result<
    PolarsField,
    ConversionError,
>)
    ensures
        match field_a_to_b(arrow_rs_field@) {
            Some(g) => r is Ok && r->Ok_0@ == g,
            None => r is Err && r->Err_0 == ConversionError::UnsupportedType,
        },
{
    let dtype = to_b(&arrow_rs_field.data_type)?;
    Ok(PolarsField { name: arrow_rs_field.name.clone(), dtype, nullable: arrow_rs_field.nullable })
}

/// Converts a dataframe field to a data-access field of the mapped type.
pub fn convert_polars_arrow_field_to_arrow_rs_field(polars_arrow_field: PolarsField) -> (r: Result<
    ArrowField,
    ConversionError,
>)
    ensures
        match field_b_to_a(polars_arrow_field@) {
            Some(g) => r is Ok && r->Ok_0@ == g,
            None => r is Err && r->Err_0 == ConversionError::UnsupportedType,
        },
{
    let data_type = to_a(&polars_arrow_field.dtype)?;
    Ok(ArrowField { name: polars_arrow_field.name, data_type, nullable: polars_arrow_field.nullable })
}

/// Converts a record batch schema to a dataframe schema, field by field and in order.
pub fn convert_arrow_rb_schema_to_polars_df_schema(arrow_schema: &ArrowSchema) -> (r: Result<
    PolarsSchema,
    ConversionError,
>)
    ensures
        match schema_a_to_b(arrow_schema@) {
            Some(gs) => r is Ok && r->Ok_0@ == gs,
            None => r is Err && r->Err_0 == ConversionError::UnsupportedType,
        },
{
    let ghost fs = arrow_schema@;
    let mut out: Vec<PolarsField> = Vec::new();
    let mut i: usize = 0;
    while i < arrow_schema.fields.len()
        invariant
            fs == arrow_schema@,
            i <= fs.len(),
            out@.len() == i,
            forall|j: int| 0 <= j < i ==> field_a_to_b(#[trigger] fs[j]) is Some,
            forall|j: int| 0 <= j < i ==> #[trigger] out@[j]@ == field_a_to_b(fs[j])->Some_0,
        decreases fs.len() - i,
    {
        match convert_arrow_rs_field_to_polars_arrow_field(&arrow_schema.fields[i]) {
            Ok(g) => {
                out.push(g);
            },
            Err(e) => {
                assert(field_a_to_b(fs[i as int]) is None);
                return Err(e);
            },
        }
        i += 1;
    }
    let r = PolarsSchema { fields: out };
    assert(r@ =~= schema_a_to_b(fs)->Some_0);
    Ok(r)
}

/// The position of the first field of a record batch schema that has no dataframe-side
/// type, naming the field an `UnsupportedType` failure comes from; `None` when every field
/// converts.
pub fn first_unsupported_field(arrow_schema: &ArrowSchema) -> (r: Option<usize>)
    ensures
        r is None <==> schema_a_to_b(arrow_schema@) is Some,
        r is Some ==> r->Some_0 < arrow_schema@.len() && field_a_to_b(arrow_schema@[r->Some_0 as int])
            is None,
        r is Some ==> forall|j: int| 0 <= j < r->Some_0 ==> field_a_to_b(#[trigger] arrow_schema@[j]) is Some,
{
    let ghost fs = arrow_schema@;
    let mut i: usize = 0;
    while i < arrow_schema.fields.len()
        invariant
            fs == arrow_schema@,
            i <= fs.len(),
            forall|j: int| 0 <= j < i ==> field_a_to_b(#[trigger] fs[j]) is Some,
        decreases fs.len() - i,
    {
        if convert_arrow_rs_field_to_polars_arrow_field(&arrow_schema.fields[i]).is_err() {
            return Some(i);
        }
        i += 1;
    }
    None
}

/// The position of the first field of a dataframe schema that has no data-access type,
/// naming the column an `UnsupportedType` failure comes from; `None` when every field
/// converts.
pub fn first_unsupported_field_b(polars_schema: &PolarsSchema) -> (r: Option<usize>)
    ensures
        r is None <==> schema_b_to_a(polars_schema@) is Some,
        r is Some ==> r->Some_0 < polars_schema@.len() && field_b_to_a(polars_schema@[r->Some_0 as int])
            is None,
        r is Some ==> forall|j: int| 0 <= j < r->Some_0 ==> field_b_to_a(#[trigger] polars_schema@[j]) is Some,
{
    let ghost fs = polars_schema@;
    let mut i: usize = 0;
    while i < polars_schema.fields.len()
        invariant
            fs == polars_schema@,
            i <= fs.len(),
            forall|j: int| 0 <= j < i ==> field_b_to_a(#[trigger] fs[j]) is Some,
        decreases fs.len() - i,
    {
        if convert_polars_arrow_field_to_arrow_rs_field(polars_schema.fields[i].duplicate()).is_err() {
            return Some(i);
        }
        i += 1;
    }
    None
}

/// Converts a dataframe schema to a record batch schema, field by field and in order.
pub fn convert_polars_df_schema_to_arrow_rb_schema(polars_schema: &PolarsSchema) -> (r: Result<
    ArrowSchema,
    ConversionError,
>)
    ensures
        match schema_b_to_a(polars_schema@) {
            Some(gs) => r is Ok && r->Ok_0@ == gs,
            None => r is Err && r->Err_0 == ConversionError::UnsupportedType,
        },
{
    let ghost fs = polars_schema@;
    let mut out: Vec<ArrowField> = Vec::new();
    let mut i: usize = 0;
    while i < polars_schema.fields.len()
        invariant
            fs == polars_schema@,
            i <= fs.len(),
            out@.len() == i,
            forall|j: int| 0 <= j < i ==> field_b_to_a(#[trigger] fs[j]) is Some,
            forall|j: int| 0 <= j < i ==> #[trigger] out@[j]@ == field_b_to_a(fs[j])->Some_0,
        decreases fs.len() - i,
    {
        let f = polars_schema.fields[i].duplicate();
        match convert_polars_arrow_field_to_arrow_rs_field(f) {
            Ok(g) => {
                out.push(g);
            },
            Err(e) => {
                assert(field_b_to_a(fs[i as int]) is None);
                return Err(e);
            },
        }
        i += 1;
    }
    let r = ArrowSchema { fields: out };
    assert(r@ =~= schema_b_to_a(fs)->Some_0);
    Ok(r)
}


impl ArrowSchema {
    /// A copy with the same fields.
    pub fn clone_fields(&self) -> (r: ArrowSchema)
        ensures
            r@ == self@,
    {
        let mut out: Vec<ArrowField> = Vec::new();
        let mut i: usize = 0;
        while i < self.fields.len()
            invariant
                i <= self.fields@.len(),
                out@.len() == i,
                forall|j: int| 0 <= j < i ==> #[trigger] out@[j]@ == self.fields@[j]@,
            decreases self.fields@.len() - i,
        {
            out.push(self.fields[i].duplicate());
            i += 1;
        }
        let r = ArrowSchema { fields: out };
        assert(r@ =~= self@);
        r
    }

    /// Same fields, in the same order, with the same names, types and nullability.
    pub fn same_as(&self, other: &ArrowSchema) -> (r: bool)
        ensures
            r == (self@ == other@),
    {
        if self.fields.len() != other.fields.len() {
            assert(self@.len() != other@.len());
            return false;
        }
        let mut i: usize = 0;
        while i < self.fields.len()
            invariant
                self.fields@.len() == other.fields@.len(),
                i <= self.fields@.len(),
                forall|j: int| 0 <= j < i ==> #[trigger] self@[j] == other@[j],
            decreases self.fields@.len() - i,
        {
            let f = &self.fields[i];
            let g = &other.fields[i];
            if f.name != g.name || f.nullable != g.nullable || !f.data_type.same_as(&g.data_type) {
                assert(self@[i as int] != other@[i as int]);
                return false;
            }
            i += 1;
        }
        assert(self@ =~= other@);
        true
    }
}

impl PolarsSchema {
    /// Same fields, in the same order, with the same names, types and nullability.
    pub fn same_as(&self, other: &PolarsSchema) -> (r: bool)
        ensures
            r == (self@ == other@),
    {
        if self.fields.len() != other.fields.len() {
            assert(self@.len() != other@.len());
            return false;
        }
        let mut i: usize = 0;
        while i < self.fields.len()
            invariant
                self.fields@.len() == other.fields@.len(),
                i <= self.fields@.len(),
                forall|j: int| 0 <= j < i ==> #[trigger] self@[j] == other@[j],
            decreases self.fields@.len() - i,
        {
            let f = &self.fields[i];
            let g = &other.fields[i];
            if f.name != g.name || f.nullable != g.nullable || !f.dtype.same_as(&g.dtype) {
                assert(self@[i as int] != other@[i as int]);
                return false;
            }
            i += 1;
        }
        assert(self@ =~= other@);
        true
    }
}

} // verus!
