use arrow_bridge::accumulate::{into_polars, FrameAccumulator, Tally};
use arrow_bridge::adapter::SimpleRecordBatchReader;
use arrow_bridge::array::{
    convert_arrow_rs_array_to_polars_arrow_array, convert_polars_arrow_array_to_arrow_rs_array,
    ArrayData, ArrowArray, PolarsArray,
};
use arrow_bridge::dtype::{
    to_a, to_b, ArrowField, ArrowType, ConversionError, PolarsField, PolarsType, TimeUnit,
};
use arrow_bridge::frame::{
    batch_to_wrapped_struct, check_batch, convert_arrow_rb_to_polars_df, first_mismatched_field,
    struct_target, wrapped_struct_to_columns, DataFrame,
    RecordBatch, Series,
};
use arrow_bridge::reader::{chunks_aligned, PolarsDataFrameRecordBatchReader};
use arrow_bridge::schema::{
    convert_arrow_rb_schema_to_polars_df_schema, convert_arrow_rs_field_to_polars_arrow_field,
    convert_polars_arrow_field_to_arrow_rs_field, convert_polars_df_schema_to_arrow_rb_schema,
    first_unsupported_field, first_unsupported_field_b,
    ArrowSchema, PolarsSchema,
};

fn plain(len: usize, buffers: Vec<Vec<u8>>) -> ArrayData {
    ArrayData { len, validity: None, buffers, children: vec![] }
}

fn utf8_column(s: &str) -> ArrayData {
    let mut offsets = Vec::new();
    offsets.extend_from_slice(&0i64.to_le_bytes());
    offsets.extend_from_slice(&(s.len() as i64).to_le_bytes());
    plain(1, vec![offsets, s.as_bytes().to_vec()])
}

fn int_column(v: i32) -> ArrayData {
    plain(1, vec![v.to_le_bytes().to_vec()])
}

fn float_column(v: f64) -> ArrayData {
    plain(1, vec![v.to_le_bytes().to_vec()])
}

fn arrow_field(name: &str, data_type: ArrowType) -> ArrowField {
    ArrowField { name: name.to_string(), data_type, nullable: true }
}

fn polars_field(name: &str, dtype: PolarsType) -> PolarsField {
    PolarsField { name: name.to_string(), dtype, nullable: true }
}

fn three_column_schema() -> ArrowSchema {
    ArrowSchema {
        fields: vec![
            arrow_field("string", ArrowType::LargeUtf8),
            arrow_field("int", ArrowType::Int32),
            arrow_field("float", ArrowType::Float64),
        ],
    }
}

fn three_column_polars_schema() -> PolarsSchema {
    PolarsSchema {
        fields: vec![
            polars_field("string", PolarsType::String),
            polars_field("int", PolarsType::Int32),
            polars_field("float", PolarsType::Float64),
        ],
    }
}

fn three_column_batch(s: &str, i: i32, f: f64) -> RecordBatch {
    RecordBatch::try_new(
        three_column_schema(),
        vec![utf8_column(s), int_column(i), float_column(f)],
        1,
    )
    .unwrap()
}

/// A frame of two one-row chunks, ("ab", 1, 1.0) then ("bc", 2, 2.0).
fn two_chunk_frame() -> DataFrame {
    DataFrame {
        schema: three_column_polars_schema(),
        columns: vec![
            Series { chunks: vec![utf8_column("ab"), utf8_column("bc")] },
            Series { chunks: vec![int_column(1), int_column(2)] },
            Series { chunks: vec![float_column(1.0), float_column(2.0)] },
        ],
        height: 2,
    }
}

fn names_and_types(schema: &ArrowSchema) -> Vec<(String, ArrowType)> {
    schema.fields.iter().map(|f| (f.name.clone(), f.data_type.duplicate())).collect()
}

#[test]
fn from_polars_to_arrow() {
    let mut reader = PolarsDataFrameRecordBatchReader::new(two_chunk_frame()).unwrap();
    let schema = reader.schema().clone_fields();
    assert_eq!(
        names_and_types(&schema),
        vec![
            ("string".to_string(), ArrowType::LargeUtf8),
            ("int".to_string(), ArrowType::Int32),
            ("float".to_string(), ArrowType::Float64),
        ]
    );
    let mut record_batches = Vec::new();
    while let Some(b) = reader.next() {
        record_batches.push(b);
    }
    assert_eq!(record_batches.len(), 2);
    assert_eq!(schema, record_batches[0].schema);
    assert_eq!(record_batches[0].schema, record_batches[1].schema);
    assert_eq!(record_batches[0].num_rows(), 1);
    assert_eq!(record_batches[1].num_rows(), 1);
}

#[test]
fn from_arrow_to_polars() {
    let mut reader = PolarsDataFrameRecordBatchReader::new(two_chunk_frame()).unwrap();
    let schema = reader.schema().clone_fields();
    let mut batches = Vec::new();
    while let Some(b) = reader.next() {
        batches.push(b);
    }
    let df = into_polars(&schema, batches).unwrap();
    assert_eq!(df.n_chunks(), 2);
    assert_eq!(df.height(), 2);
    let got: Vec<(String, PolarsType)> =
        df.schema.fields.iter().map(|f| (f.name.clone(), f.dtype.duplicate())).collect();
    assert_eq!(
        got,
        vec![
            ("string".to_string(), PolarsType::String),
            ("int".to_string(), PolarsType::Int32),
            ("float".to_string(), PolarsType::Float64),
        ]
    );
}

fn nested_arrow_type() -> ArrowType {
    ArrowType::Struct(vec![
        arrow_field("id", ArrowType::Int64),
        arrow_field("tags", ArrowType::LargeList(Box::new(ArrowType::LargeUtf8))),
        arrow_field("at", ArrowType::Timestamp(TimeUnit::Microsecond, Some("Europe/Paris".to_string()))),
    ])
}

#[test]
fn type_round_trip_from_arrow_side() {
    let canonical = vec![
        ArrowType::Boolean,
        ArrowType::Int8,
        ArrowType::UInt64,
        ArrowType::Float32,
        ArrowType::Float64,
        ArrowType::LargeUtf8,
        ArrowType::LargeBinary,
        ArrowType::Date32,
        ArrowType::Timestamp(TimeUnit::Nanosecond, None),
        ArrowType::LargeList(Box::new(ArrowType::Int32)),
        nested_arrow_type(),
    ];
    for t in canonical {
        let b = to_b(&t).unwrap();
        assert_eq!(to_a(&b).unwrap(), t);
    }
}

#[test]
fn type_round_trip_from_polars_side() {
    let supported = vec![
        PolarsType::Boolean,
        PolarsType::Int16,
        PolarsType::UInt32,
        PolarsType::String,
        PolarsType::Binary,
        PolarsType::Date,
        PolarsType::Datetime(TimeUnit::Millisecond, Some("UTC".to_string())),
        PolarsType::List(Box::new(PolarsType::Float64)),
        PolarsType::Struct(vec![polars_field("x", PolarsType::Int8), polars_field("y", PolarsType::String)]),
    ];
    for t in supported {
        let a = to_a(&t).unwrap();
        assert_eq!(to_b(&a).unwrap(), t);
    }
}

#[test]
fn strings_map_to_one_canonical_form() {
    assert_eq!(to_b(&ArrowType::Utf8).unwrap(), PolarsType::String);
    assert_eq!(to_b(&ArrowType::LargeUtf8).unwrap(), PolarsType::String);
    assert_eq!(to_a(&PolarsType::String).unwrap(), ArrowType::LargeUtf8);
    assert_eq!(to_b(&ArrowType::Binary).unwrap(), PolarsType::Binary);
    assert_eq!(to_a(&PolarsType::Binary).unwrap(), ArrowType::LargeBinary);
    assert_eq!(
        to_b(&ArrowType::List(Box::new(ArrowType::Utf8))).unwrap(),
        PolarsType::List(Box::new(PolarsType::String))
    );
}

#[test]
fn unsupported_types_fail() {
    assert_eq!(to_b(&ArrowType::Float16), Err(ConversionError::UnsupportedType));
    assert_eq!(to_a(&PolarsType::Unknown), Err(ConversionError::UnsupportedType));
    let nested = ArrowType::Struct(vec![arrow_field("ok", ArrowType::Int32), arrow_field("half", ArrowType::Float16)]);
    assert_eq!(to_b(&nested), Err(ConversionError::UnsupportedType));
    let list = PolarsType::List(Box::new(PolarsType::Unknown));
    assert_eq!(to_a(&list), Err(ConversionError::UnsupportedType));
}

#[test]
fn field_conversion_keeps_name_and_nullability() {
    let f = ArrowField { name: "n".to_string(), data_type: ArrowType::Utf8, nullable: false };
    let g = convert_arrow_rs_field_to_polars_arrow_field(&f).unwrap();
    assert_eq!(g, PolarsField { name: "n".to_string(), dtype: PolarsType::String, nullable: false });
    let back = convert_polars_arrow_field_to_arrow_rs_field(g).unwrap();
    assert_eq!(back, ArrowField { name: "n".to_string(), data_type: ArrowType::LargeUtf8, nullable: false });
}

#[test]
fn schema_round_trip() {
    let s = ArrowSchema {
        fields: vec![
            ArrowField { name: "a".to_string(), data_type: nested_arrow_type(), nullable: false },
            arrow_field("b", ArrowType::Float64),
            ArrowField { name: "c".to_string(), data_type: ArrowType::Date32, nullable: false },
        ],
    };
    let p = convert_arrow_rb_schema_to_polars_df_schema(&s).unwrap();
    assert_eq!(p.fields.len(), 3);
    assert_eq!(p.fields[1], polars_field("b", PolarsType::Float64));
    let back = convert_polars_df_schema_to_arrow_rb_schema(&p).unwrap();
    assert_eq!(back, s);
    assert!(back.same_as(&s));
}

#[test]
fn schema_with_unsupported_field_fails() {
    let s = ArrowSchema { fields: vec![arrow_field("a", ArrowType::Int8), arrow_field("h", ArrowType::Float16)] };
    assert_eq!(convert_arrow_rb_schema_to_polars_df_schema(&s), Err(ConversionError::UnsupportedType));
    let p = PolarsSchema { fields: vec![polars_field("u", PolarsType::Unknown)] };
    assert_eq!(convert_polars_df_schema_to_arrow_rb_schema(&p), Err(ConversionError::UnsupportedType));
}

#[test]
fn nulls_survive_array_conversion_including_struct_children() {
    let child = ArrayData {
        len: 3,
        validity: Some(vec![true, false, true]),
        buffers: vec![vec![1, 0, 0, 0, 0, 0, 0, 0, 0, 0, 0, 0]],
        children: vec![],
    };
    let data = ArrayData {
        len: 3,
        validity: Some(vec![false, true, true]),
        buffers: vec![],
        children: vec![child],
    };
    let t = ArrowType::Struct(vec![arrow_field("x", ArrowType::Int32)]);
    let target = PolarsType::Struct(vec![polars_field("x", PolarsType::Int32)]);
    let arr = ArrowArray { data_type: t, data };
    let p = convert_arrow_rs_array_to_polars_arrow_array(arr, target).unwrap();
    assert_eq!(p.data.validity, Some(vec![false, true, true]));
    assert_eq!(p.data.children[0].validity, Some(vec![true, false, true]));
    let back = convert_polars_arrow_array_to_arrow_rs_array(
        p,
        ArrowType::Struct(vec![arrow_field("x", ArrowType::Int32)]),
    )
    .unwrap();
    assert_eq!(back.data.validity, Some(vec![false, true, true]));
    assert_eq!(back.data.children[0].validity, Some(vec![true, false, true]));
}

#[test]
fn array_with_wrong_target_type_is_returned_whole() {
    let arr = ArrowArray { data_type: ArrowType::Int32, data: int_column(7) };
    let (e, returned) = convert_arrow_rs_array_to_polars_arrow_array(arr, PolarsType::Int64).unwrap_err();
    assert_eq!(e, ConversionError::ArrayConversion);
    assert_eq!(returned, ArrowArray { data_type: ArrowType::Int32, data: int_column(7) });
    let p = PolarsArray { dtype: PolarsType::String, data: utf8_column("x") };
    let (e, _) = convert_polars_arrow_array_to_arrow_rs_array(p, ArrowType::Utf8).unwrap_err();
    assert_eq!(e, ConversionError::ArrayConversion);
}

#[test]
fn array_with_short_bitmap_is_rejected() {
    let data = ArrayData { len: 2, validity: Some(vec![true]), buffers: vec![vec![0; 8]], children: vec![] };
    let arr = ArrowArray { data_type: ArrowType::Int32, data };
    let (e, _) = convert_arrow_rs_array_to_polars_arrow_array(arr, PolarsType::Int32).unwrap_err();
    assert_eq!(e, ConversionError::ArrayConversion);
}

#[test]
fn zero_length_array_converts() {
    let arr = ArrowArray { data_type: ArrowType::LargeBinary, data: plain(0, vec![]) };
    let p = convert_arrow_rs_array_to_polars_arrow_array(arr, PolarsType::Binary).unwrap();
    assert_eq!(p.data.len, 0);
}

#[test]
fn batch_round_trip_keeps_rows_and_columns() {
    let batch = three_column_batch("ab", 1, 1.0);
    let polars_schema = convert_arrow_rb_schema_to_polars_df_schema(&batch.schema).unwrap();
    let df = convert_arrow_rb_to_polars_df(batch, &polars_schema).unwrap();
    assert_eq!(df.height(), 1);
    assert_eq!(df.n_chunks(), 1);
    let mut reader = PolarsDataFrameRecordBatchReader::new(df).unwrap();
    let back = reader.next().unwrap();
    assert!(reader.next().is_none());
    assert_eq!(back, three_column_batch("ab", 1, 1.0));
}

#[test]
fn accumulation_keeps_row_order_and_chunks() {
    let mut acc = FrameAccumulator::new(&three_column_schema()).unwrap();
    acc.push(three_column_batch("a", 1, 1.0)).unwrap();
    acc.push(three_column_batch("b", 2, 2.0)).unwrap();
    acc.push(three_column_batch("c", 3, 3.0)).unwrap();
    let df = acc.finish();
    assert_eq!(df.height(), 3);
    assert_eq!(df.n_chunks(), 3);
    assert_eq!(df.columns[1].chunks, vec![int_column(1), int_column(2), int_column(3)]);
    assert_eq!(df.columns[0].chunks, vec![utf8_column("a"), utf8_column("b"), utf8_column("c")]);
}

#[test]
fn end_to_end_three_columns() {
    let df = DataFrame {
        schema: three_column_polars_schema(),
        columns: vec![
            Series { chunks: vec![utf8_column("ab")] },
            Series { chunks: vec![int_column(1)] },
            Series { chunks: vec![float_column(1.0)] },
        ],
        height: 1,
    };
    let mut reader = PolarsDataFrameRecordBatchReader::new(df).unwrap();
    let schema = reader.schema().clone_fields();
    assert_eq!(schema, three_column_schema());
    let batch = reader.next().unwrap();
    let back = into_polars(&schema, vec![batch]).unwrap();
    assert_eq!(back.schema, three_column_polars_schema());
    assert_eq!(back.height(), 1);
    assert_eq!(back.columns[0].chunks, vec![utf8_column("ab")]);
    assert_eq!(back.columns[1].chunks, vec![int_column(1)]);
    assert_eq!(back.columns[2].chunks, vec![float_column(1.0)]);
}

#[test]
fn unwrap_against_schema_with_other_field_count_fails() {
    let batch = three_column_batch("ab", 1, 1.0);
    let short = PolarsSchema {
        fields: vec![polars_field("string", PolarsType::String), polars_field("int", PolarsType::Int32)],
    };
    assert_eq!(convert_arrow_rb_to_polars_df(batch, &short), Err(ConversionError::SchemaConversion));
    let wrapped = batch_to_wrapped_struct(three_column_batch("ab", 1, 1.0));
    let target = to_b(&wrapped.data_type).unwrap();
    let converted = convert_arrow_rs_array_to_polars_arrow_array(wrapped, target).unwrap();
    assert_eq!(wrapped_struct_to_columns(converted, &short), Err(ConversionError::SchemaConversion));
}

#[test]
fn batch_with_mismatched_types_fails_schema_check() {
    let batch = three_column_batch("ab", 1, 1.0);
    let other = PolarsSchema {
        fields: vec![
            polars_field("string", PolarsType::String),
            polars_field("int", PolarsType::Int64),
            polars_field("float", PolarsType::Float64),
        ],
    };
    assert_eq!(convert_arrow_rb_to_polars_df(batch, &other), Err(ConversionError::SchemaConversion));
}

#[test]
fn record_batch_rejects_ragged_columns() {
    let r = RecordBatch::try_new(three_column_schema(), vec![utf8_column("a"), int_column(1)], 1);
    assert_eq!(r, Err(ConversionError::SchemaConversion));
    let r = RecordBatch::try_new(
        three_column_schema(),
        vec![utf8_column("a"), int_column(1), plain(2, vec![vec![0; 16]])],
        1,
    );
    assert_eq!(r, Err(ConversionError::SchemaConversion));
}

#[test]
fn accumulation_aborts_on_bad_batch() {
    let batches = vec![
        three_column_batch("a", 1, 1.0),
        RecordBatch {
            schema: ArrowSchema { fields: vec![arrow_field("string", ArrowType::LargeUtf8)] },
            columns: vec![utf8_column("b")],
            num_rows: 1,
        },
    ];
    assert_eq!(into_polars(&three_column_schema(), batches), Err(ConversionError::SchemaConversion));
    let bad_schema = ArrowSchema { fields: vec![arrow_field("h", ArrowType::Float16)] };
    assert_eq!(into_polars(&bad_schema, vec![]), Err(ConversionError::UnsupportedType));
}

#[test]
fn vstack_checks_width_and_appends() {
    let mut top = two_chunk_frame();
    let narrow = DataFrame { schema: PolarsSchema { fields: vec![] }, columns: vec![], height: 0 };
    assert_eq!(top.vstack(narrow), Err(ConversionError::SchemaConversion));
    assert_eq!(top, two_chunk_frame());
    top.vstack(two_chunk_frame()).unwrap();
    assert_eq!(top.height(), 4);
    assert_eq!(top.n_chunks(), 4);
    let mut big = two_chunk_frame();
    big.height = usize::MAX;
    assert_eq!(big.vstack(two_chunk_frame()), Err(ConversionError::ArrayConversion));
}

#[test]
fn reader_rejects_misaligned_chunks() {
    let mut df = two_chunk_frame();
    df.columns[1] = Series { chunks: vec![plain(2, vec![vec![0; 8]])] };
    assert_eq!(PolarsDataFrameRecordBatchReader::new(df).unwrap_err(), ConversionError::ArrayConversion);
    let mut df = two_chunk_frame();
    df.columns.pop();
    assert_eq!(PolarsDataFrameRecordBatchReader::new(df).unwrap_err(), ConversionError::SchemaConversion);
}

#[test]
fn simple_reader_keeps_one_schema() {
    let batches = vec![three_column_batch("a", 1, 1.0), three_column_batch("b", 2, 2.0)];
    let mut r = SimpleRecordBatchReader::new(three_column_schema(), batches).unwrap();
    assert_eq!(r.schema(), &three_column_schema());
    assert_eq!(r.next().unwrap(), three_column_batch("a", 1, 1.0));
    assert_eq!(r.next().unwrap(), three_column_batch("b", 2, 2.0));
    assert!(r.next().is_none());
    let odd = RecordBatch {
        schema: ArrowSchema { fields: vec![arrow_field("string", ArrowType::Utf8)] },
        columns: vec![utf8_column("c")],
        num_rows: 1,
    };
    let bad = SimpleRecordBatchReader::new(three_column_schema(), vec![odd]);
    assert_eq!(bad.unwrap_err(), ConversionError::SchemaConversion);
}

#[test]
fn renamed_column_fails_schema_check_before_arrays() {
    let batch = three_column_batch("ab", 1, 1.0);
    let renamed = PolarsSchema {
        fields: vec![
            polars_field("string", PolarsType::String),
            polars_field("integer", PolarsType::Int32),
            polars_field("float", PolarsType::Float64),
        ],
    };
    assert_eq!(convert_arrow_rb_to_polars_df(batch, &renamed), Err(ConversionError::SchemaConversion));
    let reordered = PolarsSchema {
        fields: vec![
            polars_field("int", PolarsType::Int32),
            polars_field("string", PolarsType::String),
            polars_field("float", PolarsType::Float64),
        ],
    };
    assert_eq!(check_batch(&three_column_schema(), 3, &reordered), Err(ConversionError::SchemaConversion));
    assert_eq!(check_batch(&three_column_schema(), 3, &three_column_polars_schema()), Ok(()));
    assert_eq!(check_batch(&three_column_schema(), 2, &three_column_polars_schema()), Err(ConversionError::SchemaConversion));
}

#[test]
fn struct_target_wraps_schema_fields() {
    let t = struct_target(&three_column_polars_schema());
    assert_eq!(t, PolarsType::Struct(three_column_polars_schema().fields));
}

#[test]
fn chunk_alignment_decision() {
    assert!(chunks_aligned(&vec![vec![1, 2], vec![1, 2]]));
    assert!(!chunks_aligned(&vec![vec![1, 2], vec![3]]));
    assert!(!chunks_aligned(&vec![vec![1, 2], vec![2, 1]]));
    assert!(chunks_aligned(&vec![]));
}

#[test]
fn tally_counts_rows_and_chunks() {
    let mut t = Tally::new();
    t.record(1).unwrap();
    t.record(1).unwrap();
    t.record(1).unwrap();
    assert_eq!(t, Tally { height: 3, chunks: 3 });
    let mut full = Tally { height: usize::MAX, chunks: 0 };
    assert_eq!(full.record(1), Err(ConversionError::ArrayConversion));
    assert_eq!(full, Tally { height: usize::MAX, chunks: 0 });
}

#[test]
fn temporal_and_other_kinds_map_as_the_dataframe_side_does() {
    assert_eq!(to_b(&ArrowType::Date64).unwrap(), PolarsType::Datetime(TimeUnit::Millisecond, None));
    assert_eq!(
        to_b(&ArrowType::Timestamp(TimeUnit::Second, Some(String::new()))).unwrap(),
        PolarsType::Datetime(TimeUnit::Millisecond, None)
    );
    assert_eq!(to_b(&ArrowType::Time32(TimeUnit::Millisecond)).unwrap(), PolarsType::Time);
    assert_eq!(to_a(&PolarsType::Time).unwrap(), ArrowType::Time64(TimeUnit::Nanosecond));
    assert_eq!(
        to_b(&ArrowType::Duration(TimeUnit::Second)).unwrap(),
        PolarsType::Duration(TimeUnit::Millisecond)
    );
    assert_eq!(to_b(&ArrowType::FixedSizeBinary(16)).unwrap(), PolarsType::Binary);
    assert_eq!(to_a(&to_b(&ArrowType::Null).unwrap()).unwrap(), ArrowType::Null);
    assert_eq!(
        to_a(&to_b(&ArrowType::Duration(TimeUnit::Microsecond)).unwrap()).unwrap(),
        ArrowType::Duration(TimeUnit::Microsecond)
    );
    assert_eq!(to_a(&PolarsType::Datetime(TimeUnit::Second, None)), Err(ConversionError::UnsupportedType));
}

#[test]
fn converted_frame_rows_match_chunks() {
    let batch = three_column_batch("ab", 1, 1.0);
    let df = convert_arrow_rb_to_polars_df(batch, &three_column_polars_schema()).unwrap();
    for s in &df.columns {
        assert_eq!(s.chunks.iter().map(|c| c.len).sum::<usize>(), df.height());
    }
}

#[test]
fn unsupported_field_is_named_by_position() {
    let s = ArrowSchema {
        fields: vec![arrow_field("a", ArrowType::Int8), arrow_field("h", ArrowType::Float16), arrow_field("g", ArrowType::Float16)],
    };
    assert_eq!(first_unsupported_field(&s), Some(1));
    assert_eq!(first_unsupported_field(&three_column_schema()), None);
}

#[test]
fn mismatched_field_is_named_by_position() {
    let renamed = PolarsSchema {
        fields: vec![
            polars_field("string", PolarsType::String),
            polars_field("integer", PolarsType::Int32),
            polars_field("float", PolarsType::Float64),
        ],
    };
    assert_eq!(first_mismatched_field(&three_column_schema(), &renamed), Some(1));
    let short = PolarsSchema { fields: vec![polars_field("string", PolarsType::String)] };
    assert_eq!(first_mismatched_field(&three_column_schema(), &short), Some(1));
    assert_eq!(first_mismatched_field(&three_column_schema(), &three_column_polars_schema()), None);
}

#[test]
fn non_canonical_arrays_are_not_handed_over_as_is() {
    let offsets32 = vec![0u8, 0, 0, 0, 2, 0, 0, 0];
    let arr = ArrowArray { data_type: ArrowType::Utf8, data: plain(1, vec![offsets32, b"ab".to_vec()]) };
    let (e, _) = convert_arrow_rs_array_to_polars_arrow_array(arr, PolarsType::String).unwrap_err();
    assert_eq!(e, ConversionError::ArrayConversion);
    let arr = ArrowArray { data_type: ArrowType::Timestamp(TimeUnit::Second, None), data: plain(1, vec![vec![0; 8]]) };
    let target = PolarsType::Datetime(TimeUnit::Millisecond, None);
    let (e, _) = convert_arrow_rs_array_to_polars_arrow_array(arr, target).unwrap_err();
    assert_eq!(e, ConversionError::ArrayConversion);
    let arr = ArrowArray { data_type: ArrowType::LargeUtf8, data: utf8_column("ab") };
    assert!(convert_arrow_rs_array_to_polars_arrow_array(arr, PolarsType::String).is_ok());
}

#[test]
fn batch_with_small_offsets_fails_schema_check() {
    let schema = ArrowSchema {
        fields: vec![
            arrow_field("string", ArrowType::Utf8),
            arrow_field("int", ArrowType::Int32),
            arrow_field("float", ArrowType::Float64),
        ],
    };
    assert_eq!(check_batch(&schema, 3, &three_column_polars_schema()), Err(ConversionError::SchemaConversion));
    assert_eq!(first_mismatched_field(&schema, &three_column_polars_schema()), Some(0));
}

#[test]
fn vstack_refuses_other_schema() {
    let mut top = two_chunk_frame();
    let mut other = two_chunk_frame();
    other.schema.fields[1] = polars_field("integer", PolarsType::Int32);
    assert_eq!(top.vstack(other), Err(ConversionError::SchemaConversion));
    assert_eq!(top, two_chunk_frame());
}

#[test]
fn unsupported_frame_column_is_named_by_position() {
    let p = PolarsSchema {
        fields: vec![polars_field("a", PolarsType::Int8), polars_field("u", PolarsType::Unknown)],
    };
    assert_eq!(first_unsupported_field_b(&p), Some(1));
    assert_eq!(first_unsupported_field_b(&three_column_polars_schema()), None);
}
