//! Logical types of the two columnar implementations and the mapping between them.
//!
//! `ArrowType` is the type enumeration of the data-access side, `PolarsType` that of the
//! dataframe side. Both have a mathematical model (`TypeA`, `TypeB`) whose nested struct
//! fields are sequences, so that equality of models is plain `==`.
use vstd::prelude::*;

verus! {

/// Resolution of a temporal value.
#[derive(Clone, Copy, Debug, PartialEq, Eq, Structural)]
pub enum TimeUnit {
    Second,
    Millisecond,
    Microsecond,
    Nanosecond,
}

/// Reasons a conversion between the two implementations fails.
#[derive(Clone, Copy, Debug, PartialEq, Eq, Structural)]
pub enum ConversionError {
    /// A logical type has no counterpart on the destination side.
    UnsupportedType,
    /// A field or schema does not match what the destination expects.
    SchemaConversion,
    /// An array was rejected by the destination, or its layout is inconsistent.
    ArrayConversion,
}

/// Logical type of the data-access side.
#[derive(Debug, PartialEq, Eq)]
pub enum ArrowType {
    Boolean,
    Int8,
    Int16,
    Int32,
    Int64,
    UInt8,
    UInt16,
    UInt32,
    UInt64,
    Float16,
    Float32,
    Float64,
    /// Strings with 32-bit offsets.
    Utf8,
    /// Strings with 64-bit offsets.
    LargeUtf8,
    Binary,
    LargeBinary,
    Date32,
    /// Milliseconds since the epoch, as a date.
    Date64,
    /// With an optional time zone name.
    Timestamp(TimeUnit, Option<String>),
    Time32(TimeUnit),
    Time64(TimeUnit),
    Duration(TimeUnit),
    FixedSizeBinary(u32),
    Null,
    List(Box<ArrowType>),
    LargeList(Box<ArrowType>),
    Struct(Vec<ArrowField>),
}

/// A named column of the data-access side.
#[derive(Debug, PartialEq, Eq)]
pub struct ArrowField {
    pub name: String,
    pub data_type: ArrowType,
    pub nullable: bool,
}

/// Logical type of the dataframe side.
#[derive(Debug, PartialEq, Eq)]
pub enum PolarsType {
    Boolean,
    Int8,
    Int16,
    Int32,
    Int64,
    UInt8,
    UInt16,
    UInt32,
    UInt64,
    Float32,
    Float64,
    String,
    Binary,
    Date,
    /// The dataframe side has no seconds unit; a seconds unit here has no layout.
    Datetime(TimeUnit, Option<String>),
    Duration(TimeUnit),
    /// Time of day in nanoseconds.
    Time,
    Null,
    List(Box<PolarsType>),
    Struct(Vec<PolarsField>),
    /// A type the dataframe side has not resolved; it has no columnar layout.
    Unknown,
}

/// A named column of the dataframe side.
#[derive(Debug, PartialEq, Eq)]
pub struct PolarsField {
    pub name: String,
    pub dtype: PolarsType,
    pub nullable: bool,
}

/// Model of an `ArrowType`.
pub enum TypeA {
    Boolean,
    Int8,
    Int16,
    Int32,
    Int64,
    UInt8,
    UInt16,
    UInt32,
    UInt64,
    Float16,
    Float32,
    Float64,
    Utf8,
    LargeUtf8,
    Binary,
    LargeBinary,
    Date32,
    Date64,
    Timestamp(TimeUnit, Option<Seq<char>>),
    Time32(TimeUnit),
    Time64(TimeUnit),
    Duration(TimeUnit),
    FixedSizeBinary(u32),
    Null,
    List(Box<TypeA>),
    LargeList(Box<TypeA>),
    Struct(Seq<FieldA>),
}

/// Model of an `ArrowField`.
pub struct FieldA {
    pub name: Seq<char>,
    pub ty: TypeA,
    pub nullable: bool,
}

/// Model of a `PolarsType`.
pub enum TypeB {
    Boolean,
    Int8,
    Int16,
    Int32,
    Int64,
    UInt8,
    UInt16,
    UInt32,
    UInt64,
    Float32,
    Float64,
    String,
    Binary,
    Date,
    Datetime(TimeUnit, Option<Seq<char>>),
    Duration(TimeUnit),
    Time,
    Null,
    List(Box<TypeB>),
    Struct(Seq<FieldB>),
    Unknown,
}

/// Model of a `PolarsField`.
pub struct FieldB {
    pub name: Seq<char>,
    pub ty: TypeB,
    pub nullable: bool,
}

/// Model of an optional time zone name.
pub open spec fn tz_model(tz: Option<String>) -> Option<Seq<char>> {
    match tz {
        Some(s) => Some(s@),
        None => None,
    }
}

pub open spec fn type_a_model(t: ArrowType) -> TypeA
    decreases t,
    via type_a_model_decreases
{
    match t {
        ArrowType::Boolean => TypeA::Boolean,
        ArrowType::Int8 => TypeA::Int8,
        ArrowType::Int16 => TypeA::Int16,
        ArrowType::Int32 => TypeA::Int32,
        ArrowType::Int64 => TypeA::Int64,
        ArrowType::UInt8 => TypeA::UInt8,
        ArrowType::UInt16 => TypeA::UInt16,
        ArrowType::UInt32 => TypeA::UInt32,
        ArrowType::UInt64 => TypeA::UInt64,
        ArrowType::Float16 => TypeA::Float16,
        ArrowType::Float32 => TypeA::Float32,
        ArrowType::Float64 => TypeA::Float64,
        ArrowType::Utf8 => TypeA::Utf8,
        ArrowType::LargeUtf8 => TypeA::LargeUtf8,
        ArrowType::Binary => TypeA::Binary,
        ArrowType::LargeBinary => TypeA::LargeBinary,
        ArrowType::Date32 => TypeA::Date32,
        ArrowType::Date64 => TypeA::Date64,
        ArrowType::Timestamp(u, tz) => TypeA::Timestamp(u, tz_model(tz)),
        ArrowType::Time32(u) => TypeA::Time32(u),
        ArrowType::Time64(u) => TypeA::Time64(u),
        ArrowType::Duration(u) => TypeA::Duration(u),
        ArrowType::FixedSizeBinary(w) => TypeA::FixedSizeBinary(w),
        ArrowType::Null => TypeA::Null,
        ArrowType::List(e) => TypeA::List(Box::new(type_a_model(*e))),
        ArrowType::LargeList(e) => TypeA::LargeList(Box::new(type_a_model(*e))),
        ArrowType::Struct(fs) => TypeA::Struct(
            Seq::new(
                fs@.len(),
                |i: int|
                    FieldA {
                        name: fs@[i].name@,
                        ty: if 0 <= i < fs@.len() {
                            type_a_model(fs@[i].data_type)
                        } else {
                            TypeA::Boolean
                        },
                        nullable: fs@[i].nullable,
                    },
            ),
        ),
    }
}

#[via_fn]
proof fn type_a_model_decreases(t: ArrowType) {
    match t {
        ArrowType::Struct(fs) => {
            assert forall|i: int| 0 <= i < fs@.len() implies decreases_to!(t => fs@[i].data_type) by {
                assert(decreases_to!(fs => fs[i]));
            }
        },
        _ => {},
    }
}

pub open spec fn type_b_model(t: PolarsType) -> TypeB
    decreases t,
    via type_b_model_decreases
{
    match t {
        PolarsType::Boolean => TypeB::Boolean,
        PolarsType::Int8 => TypeB::Int8,
        PolarsType::Int16 => TypeB::Int16,
        PolarsType::Int32 => TypeB::Int32,
        PolarsType::Int64 => TypeB::Int64,
        PolarsType::UInt8 => TypeB::UInt8,
        PolarsType::UInt16 => TypeB::UInt16,
        PolarsType::UInt32 => TypeB::UInt32,
        PolarsType::UInt64 => TypeB::UInt64,
        PolarsType::Float32 => TypeB::Float32,
        PolarsType::Float64 => TypeB::Float64,
        PolarsType::String => TypeB::String,
        PolarsType::Binary => TypeB::Binary,
        PolarsType::Date => TypeB::Date,
        PolarsType::Datetime(u, tz) => TypeB::Datetime(u, tz_model(tz)),
        PolarsType::Duration(u) => TypeB::Duration(u),
        PolarsType::Time => TypeB::Time,
        PolarsType::Null => TypeB::Null,
        PolarsType::List(e) => TypeB::List(Box::new(type_b_model(*e))),
        PolarsType::Struct(fs) => TypeB::Struct(
            Seq::new(
                fs@.len(),
                |i: int|
                    FieldB {
                        name: fs@[i].name@,
                        ty: if 0 <= i < fs@.len() {
                            type_b_model(fs@[i].dtype)
                        } else {
                            TypeB::Boolean
                        },
                        nullable: fs@[i].nullable,
                    },
            ),
        ),
        PolarsType::Unknown => TypeB::Unknown,
    }
}

#[via_fn]
proof fn type_b_model_decreases(t: PolarsType) {
    match t {
        PolarsType::Struct(fs) => {
            assert forall|i: int| 0 <= i < fs@.len() implies decreases_to!(t => fs@[i].dtype) by {
                assert(decreases_to!(fs => fs[i]));
            }
        },
        _ => {},
    }
}

impl View for ArrowType {
    type V = TypeA;

    open spec fn view(&self) -> TypeA {
        type_a_model(*self)
    }
}

impl View for ArrowField {
    type V = FieldA;

    open spec fn view(&self) -> FieldA {
        FieldA { name: self.name@, ty: self.data_type@, nullable: self.nullable }
    }
}

impl View for PolarsType {
    type V = TypeB;

    open spec fn view(&self) -> TypeB {
        type_b_model(*self)
    }
}

impl View for PolarsField {
    type V = FieldB;

    open spec fn view(&self) -> FieldB {
        FieldB { name: self.name@, ty: self.dtype@, nullable: self.nullable }
    }
}


/// The dataframe side's unit for a data-access unit: seconds become milliseconds.
pub open spec fn frame_unit(u: TimeUnit) -> TimeUnit {
    match u {
        TimeUnit::Second => TimeUnit::Millisecond,
        _ => u,
    }
}

/// The dataframe side's time zone for a data-access one: an empty name means none.
pub open spec fn frame_tz(tz: Option<Seq<char>>) -> Option<Seq<char>> {
    match tz {
        Some(s) => if s.len() == 0 {
            None
        } else {
            Some(s)
        },
        None => None,
    }
}

/// The dataframe-side type that a data-access type maps to, if it has one.
///
/// Strings and binaries of either offset width map to the dataframe side's single string
/// and binary kinds; half-precision floats have no counterpart.
pub open spec fn a_to_b(t: TypeA) -> Option<TypeB>
    decreases t,
{
    match t {
        TypeA::Boolean => Some(TypeB::Boolean),
        TypeA::Int8 => Some(TypeB::Int8),
        TypeA::Int16 => Some(TypeB::Int16),
        TypeA::Int32 => Some(TypeB::Int32),
        TypeA::Int64 => Some(TypeB::Int64),
        TypeA::UInt8 => Some(TypeB::UInt8),
        TypeA::UInt16 => Some(TypeB::UInt16),
        TypeA::UInt32 => Some(TypeB::UInt32),
        TypeA::UInt64 => Some(TypeB::UInt64),
        TypeA::Float16 => None,
        TypeA::Float32 => Some(TypeB::Float32),
        TypeA::Float64 => Some(TypeB::Float64),
        TypeA::Utf8 => Some(TypeB::String),
        TypeA::LargeUtf8 => Some(TypeB::String),
        TypeA::Binary => Some(TypeB::Binary),
        TypeA::LargeBinary => Some(TypeB::Binary),
        TypeA::Date32 => Some(TypeB::Date),
        TypeA::Date64 => Some(TypeB::Datetime(TimeUnit::Millisecond, None)),
        TypeA::Timestamp(u, tz) => Some(TypeB::Datetime(frame_unit(u), frame_tz(tz))),
        TypeA::Time32(_) => Some(TypeB::Time),
        TypeA::Time64(_) => Some(TypeB::Time),
        TypeA::Duration(u) => Some(TypeB::Duration(frame_unit(u))),
        TypeA::FixedSizeBinary(_) => Some(TypeB::Binary),
        TypeA::Null => Some(TypeB::Null),
        TypeA::List(e) => match a_to_b(*e) {
            Some(x) => Some(TypeB::List(Box::new(x))),
            None => None,
        },
        TypeA::LargeList(e) => match a_to_b(*e) {
            Some(x) => Some(TypeB::List(Box::new(x))),
            None => None,
        },
        TypeA::Struct(fs) => if forall|i: int| 0 <= i < fs.len() ==> a_to_b(#[trigger] fs[i].ty) is Some {
            Some(
                TypeB::Struct(
                    Seq::new(
                        fs.len(),
                        |i: int|
                            FieldB {
                                name: fs[i].name,
                                ty: if 0 <= i < fs.len() {
                                    a_to_b(fs[i].ty)->Some_0
                                } else {
                                    TypeB::Boolean
                                },
                                nullable: fs[i].nullable,
                            },
                    ),
                ),
            )
        } else {
            None
        },
    }
}

/// The data-access-side type that a dataframe-side type maps to, if it has one.
///
/// Strings, binaries and lists always take the 64-bit offset representation.
pub open spec fn b_to_a(t: TypeB) -> Option<TypeA>
    decreases t,
{
    match t {
        TypeB::Boolean => Some(TypeA::Boolean),
        TypeB::Int8 => Some(TypeA::Int8),
        TypeB::Int16 => Some(TypeA::Int16),
        TypeB::Int32 => Some(TypeA::Int32),
        TypeB::Int64 => Some(TypeA::Int64),
        TypeB::UInt8 => Some(TypeA::UInt8),
        TypeB::UInt16 => Some(TypeA::UInt16),
        TypeB::UInt32 => Some(TypeA::UInt32),
        TypeB::UInt64 => Some(TypeA::UInt64),
        TypeB::Float32 => Some(TypeA::Float32),
        TypeB::Float64 => Some(TypeA::Float64),
        TypeB::String => Some(TypeA::LargeUtf8),
        TypeB::Binary => Some(TypeA::LargeBinary),
        TypeB::Date => Some(TypeA::Date32),
        TypeB::Datetime(u, tz) => if u == TimeUnit::Second {
            None
        } else {
            Some(TypeA::Timestamp(u, tz))
        },
        TypeB::Duration(u) => if u == TimeUnit::Second {
            None
        } else {
            Some(TypeA::Duration(u))
        },
        TypeB::Time => Some(TypeA::Time64(TimeUnit::Nanosecond)),
        TypeB::Null => Some(TypeA::Null),
        TypeB::List(e) => match b_to_a(*e) {
            Some(x) => Some(TypeA::LargeList(Box::new(x))),
            None => None,
        },
        TypeB::Struct(fs) => if forall|i: int| 0 <= i < fs.len() ==> b_to_a(#[trigger] fs[i].ty) is Some {
            Some(
                TypeA::Struct(
                    Seq::new(
                        fs.len(),
                        |i: int|
                            FieldA {
                                name: fs[i].name,
                                ty: if 0 <= i < fs.len() {
                                    b_to_a(fs[i].ty)->Some_0
                                } else {
                                    TypeA::Boolean
                                },
                                nullable: fs[i].nullable,
                            },
                    ),
                ),
            )
        } else {
            None
        },
        TypeB::Unknown => None,
    }
}

/// A data-access type in the one representation the mapping produces for its logical kind.
pub open spec fn canonical_a(t: TypeA) -> bool
    decreases t,
{
    match t {
        TypeA::Float16 => false,
        TypeA::Utf8 => false,
        TypeA::Binary => false,
        TypeA::List(_) => false,
        TypeA::Date64 => false,
        TypeA::FixedSizeBinary(_) => false,
        TypeA::Time32(_) => false,
        TypeA::Time64(u) => u == TimeUnit::Nanosecond,
        TypeA::Timestamp(u, tz) => u != TimeUnit::Second && frame_tz(tz) == tz,
        TypeA::Duration(u) => u != TimeUnit::Second,
        TypeA::LargeList(e) => canonical_a(*e),
        TypeA::Struct(fs) => forall|i: int| 0 <= i < fs.len() ==> canonical_a(#[trigger] fs[i].ty),
        _ => true,
    }
}

/// A dataframe-side type that has a columnar layout.
pub open spec fn supported_b(t: TypeB) -> bool
    decreases t,
{
    match t {
        TypeB::Unknown => false,
        TypeB::Datetime(u, tz) => u != TimeUnit::Second && frame_tz(tz) == tz,
        TypeB::Duration(u) => u != TimeUnit::Second,
        TypeB::List(e) => supported_b(*e),
        TypeB::Struct(fs) => forall|i: int| 0 <= i < fs.len() ==> supported_b(#[trigger] fs[i].ty),
        _ => true,
    }
}


/// Mapping a canonical data-access type to the dataframe side and back gives the same type,
/// and the intermediate type is one the dataframe side supports.
pub proof fn lemma_round_trip_a(t: TypeA)
    requires
        canonical_a(t),
    ensures
        a_to_b(t) is Some,
        supported_b(a_to_b(t)->Some_0),
        b_to_a(a_to_b(t)->Some_0) == Some(t),
    decreases t,
{
    match t {
        TypeA::LargeList(e) => {
            lemma_round_trip_a(*e);
        },
        TypeA::Struct(fs) => {
            assert forall|i: int| 0 <= i < fs.len() implies a_to_b(fs[i].ty) is Some
                && supported_b(a_to_b(fs[i].ty)->Some_0)
                && b_to_a(a_to_b(fs[i].ty)->Some_0) == Some(fs[i].ty) by {
                assert(canonical_a(fs[i].ty));
                lemma_round_trip_a(fs[i].ty);
            }
            let m = a_to_b(t)->Some_0;
            let gs = m->Struct_0;
            assert(gs.len() == fs.len());
            assert forall|i: int| 0 <= i < gs.len() implies #[trigger] b_to_a(gs[i].ty) is Some by {
                assert(gs[i].ty == a_to_b(fs[i].ty)->Some_0);
            }
            assert forall|i: int| 0 <= i < gs.len() implies #[trigger] supported_b(gs[i].ty) by {
                assert(gs[i].ty == a_to_b(fs[i].ty)->Some_0);
            }
            let back = b_to_a(m)->Some_0->Struct_0;
            assert(back =~= fs);
        },
        _ => {},
    }
}

/// Mapping a supported dataframe-side type to the data-access side and back gives the same
/// type, and the intermediate type is canonical.
pub proof fn lemma_round_trip_b(t: TypeB)
    requires
        supported_b(t),
    ensures
        b_to_a(t) is Some,
        canonical_a(b_to_a(t)->Some_0),
        a_to_b(b_to_a(t)->Some_0) == Some(t),
    decreases t,
{
    match t {
        TypeB::List(e) => {
            lemma_round_trip_b(*e);
        },
        TypeB::Struct(fs) => {
            assert forall|i: int| 0 <= i < fs.len() implies b_to_a(fs[i].ty) is Some
                && canonical_a(b_to_a(fs[i].ty)->Some_0)
                && a_to_b(b_to_a(fs[i].ty)->Some_0) == Some(fs[i].ty) by {
                assert(supported_b(fs[i].ty));
                lemma_round_trip_b(fs[i].ty);
            }
            let m = b_to_a(t)->Some_0;
            let gs = m->Struct_0;
            assert(gs.len() == fs.len());
            assert forall|i: int| 0 <= i < gs.len() implies #[trigger] a_to_b(gs[i].ty) is Some by {
                assert(gs[i].ty == b_to_a(fs[i].ty)->Some_0);
            }
            assert forall|i: int| 0 <= i < gs.len() implies #[trigger] canonical_a(gs[i].ty) by {
                assert(gs[i].ty == b_to_a(fs[i].ty)->Some_0);
            }
            let back = a_to_b(m)->Some_0->Struct_0;
            assert(back =~= fs);
        },
        _ => {},
    }
}


fn to_frame_tz(tz: &Option<String>) -> (r: Option<String>)
    ensures
        tz_model(r) == frame_tz(tz_model(*tz)),
{
    match tz {
        Some(s) => if s.as_str().is_empty() {
            None
        } else {
            Some(s.clone())
        },
        None => None,
    }
}

fn duplicate_tz(tz: &Option<String>) -> (r: Option<String>)
    ensures
        tz_model(r) == tz_model(*tz),
{
    match tz {
        Some(s) => Some(s.clone()),
        None => None,
    }
}

fn same_tz(a: &Option<String>, b: &Option<String>) -> (r: bool)
    ensures
        r == (tz_model(*a) == tz_model(*b)),
{
    match (a, b) {
        (Some(x), Some(y)) => *x == *y,
        (None, None) => true,
        _ => false,
    }
}

fn to_frame_unit(u: TimeUnit) -> (r: TimeUnit)
    ensures
        r == frame_unit(u),
{
    match u {
        TimeUnit::Second => TimeUnit::Millisecond,
        _ => u,
    }
}

/// Maps a data-access type to its dataframe-side type (the TypeMapper's `to_b`).
///
/// Fails with `UnsupportedType` exactly when the type, or a type nested in it, has no
/// counterpart.
pub fn to_b(t: &ArrowType) -> (r: Result<PolarsType, ConversionError>)
    ensures
        match a_to_b(t@) {
            Some(m) => r is Ok && r->Ok_0@ == m,
            None => r is Err && r->Err_0 == ConversionError::UnsupportedType,
        },
    decreases t,
{
    match t {
        ArrowType::Boolean => Ok(PolarsType::Boolean),
        ArrowType::Int8 => Ok(PolarsType::Int8),
        ArrowType::Int16 => Ok(PolarsType::Int16),
        ArrowType::Int32 => Ok(PolarsType::Int32),
        ArrowType::Int64 => Ok(PolarsType::Int64),
        ArrowType::UInt8 => Ok(PolarsType::UInt8),
        ArrowType::UInt16 => Ok(PolarsType::UInt16),
        ArrowType::UInt32 => Ok(PolarsType::UInt32),
        ArrowType::UInt64 => Ok(PolarsType::UInt64),
        ArrowType::Float32 => Ok(PolarsType::Float32),
        ArrowType::Float64 => Ok(PolarsType::Float64),
        ArrowType::Float16 => Err(ConversionError::UnsupportedType),
        ArrowType::Utf8 => Ok(PolarsType::String),
        ArrowType::LargeUtf8 => Ok(PolarsType::String),
        ArrowType::Binary => Ok(PolarsType::Binary),
        ArrowType::LargeBinary => Ok(PolarsType::Binary),
        ArrowType::Date32 => Ok(PolarsType::Date),
        ArrowType::Date64 => Ok(PolarsType::Datetime(TimeUnit::Millisecond, None)),
        ArrowType::Timestamp(u, tz) => Ok(PolarsType::Datetime(to_frame_unit(*u), to_frame_tz(tz))),
        ArrowType::Time32(_) => Ok(PolarsType::Time),
        ArrowType::Time64(_) => Ok(PolarsType::Time),
        ArrowType::Duration(u) => Ok(PolarsType::Duration(to_frame_unit(*u))),
        ArrowType::FixedSizeBinary(_) => Ok(PolarsType::Binary),
        ArrowType::Null => Ok(PolarsType::Null),
        ArrowType::List(e) => {
            let inner = to_b(e)?;
            Ok(PolarsType::List(Box::new(inner)))
        },
        ArrowType::LargeList(e) => {
            let inner = to_b(e)?;
            Ok(PolarsType::List(Box::new(inner)))
        },
        ArrowType::Struct(fs) => {
            let ghost ms = t@->Struct_0;
            let mut out: Vec<PolarsField> = Vec::new();
            let mut i: usize = 0;
            while i < fs.len()
                invariant
                    ms == t@->Struct_0,
                    t@ == TypeA::Struct(ms),
                    *t == ArrowType::Struct(*fs),
                    ms.len() == fs@.len(),
                    i <= fs@.len(),
                    out@.len() == i,
                    forall|j: int| 0 <= j < i ==> a_to_b(#[trigger] ms[j].ty) is Some,
                    forall|j: int|
                        0 <= j < i ==> #[trigger] out@[j]@ == (FieldB {
                            name: ms[j].name,
                            ty: a_to_b(ms[j].ty)->Some_0,
                            nullable: ms[j].nullable,
                        }),
                decreases fs@.len() - i,
            {
                proof {
                    assert(decreases_to!(fs => fs[i as int]));
                }
                let f = &fs[i];
                assert(ms[i as int] == f@);
                let d = match to_b(&f.data_type) {
                    Ok(d) => d,
                    Err(e) => {
                        assert(a_to_b(ms[i as int].ty) is None);
                        assert(a_to_b(t@) is None);
                        return Err(e);
                    },
                };
                out.push(PolarsField { name: f.name.clone(), dtype: d, nullable: f.nullable });
                i += 1;
            }
            let r = PolarsType::Struct(out);
            assert(a_to_b(t@) is Some);
            assert(r@->Struct_0.len() == out@.len());
            assert forall|j: int| 0 <= j < out@.len() implies r@->Struct_0[j] == #[trigger] out@[j]@ by {}
            let ghost want = a_to_b(t@)->Some_0->Struct_0;
            assert(want.len() == ms.len());
            assert forall|j: int| 0 <= j < out@.len() implies #[trigger] want[j] == out@[j]@ by {
                assert(want[j].ty == a_to_b(ms[j].ty)->Some_0);
            }
            assert(r@->Struct_0 =~= want);
            Ok(r)
        },
    }
}

/// Maps a dataframe-side type to its data-access type (the TypeMapper's `to_a`).
///
/// Strings, binaries and lists take their 64-bit offset form. Fails with
/// `UnsupportedType` exactly when the type, or a type nested in it, has no layout.
pub fn to_a(t: &PolarsType) -> (r: Result<ArrowType, ConversionError>)
    ensures
        match b_to_a(t@) {
            Some(m) => r is Ok && r->Ok_0@ == m,
            None => r is Err && r->Err_0 == ConversionError::UnsupportedType,
        },
    decreases t,
{
    match t {
        PolarsType::Boolean => Ok(ArrowType::Boolean),
        PolarsType::Int8 => Ok(ArrowType::Int8),
        PolarsType::Int16 => Ok(ArrowType::Int16),
        PolarsType::Int32 => Ok(ArrowType::Int32),
        PolarsType::Int64 => Ok(ArrowType::Int64),
        PolarsType::UInt8 => Ok(ArrowType::UInt8),
        PolarsType::UInt16 => Ok(ArrowType::UInt16),
        PolarsType::UInt32 => Ok(ArrowType::UInt32),
        PolarsType::UInt64 => Ok(ArrowType::UInt64),
        PolarsType::Float32 => Ok(ArrowType::Float32),
        PolarsType::Float64 => Ok(ArrowType::Float64),
        PolarsType::String => Ok(ArrowType::LargeUtf8),
        PolarsType::Binary => Ok(ArrowType::LargeBinary),
        PolarsType::Date => Ok(ArrowType::Date32),
        PolarsType::Datetime(u, tz) => if *u == TimeUnit::Second {
            Err(ConversionError::UnsupportedType)
        } else {
            Ok(ArrowType::Timestamp(*u, duplicate_tz(tz)))
        },
        PolarsType::Duration(u) => if *u == TimeUnit::Second {
            Err(ConversionError::UnsupportedType)
        } else {
            Ok(ArrowType::Duration(*u))
        },
        PolarsType::Time => Ok(ArrowType::Time64(TimeUnit::Nanosecond)),
        PolarsType::Null => Ok(ArrowType::Null),
        PolarsType::List(e) => {
            let inner = to_a(e)?;
            Ok(ArrowType::LargeList(Box::new(inner)))
        },
        PolarsType::Unknown => Err(ConversionError::UnsupportedType),
        PolarsType::Struct(fs) => {
            let ghost ms = t@->Struct_0;
            let mut out: Vec<ArrowField> = Vec::new();
            let mut i: usize = 0;
            while i < fs.len()
                invariant
                    ms == t@->Struct_0,
                    t@ == TypeB::Struct(ms),
                    *t == PolarsType::Struct(*fs),
                    ms.len() == fs@.len(),
                    i <= fs@.len(),
                    out@.len() == i,
                    forall|j: int| 0 <= j < i ==> b_to_a(#[trigger] ms[j].ty) is Some,
                    forall|j: int|
                        0 <= j < i ==> #[trigger] out@[j]@ == (FieldA {
                            name: ms[j].name,
                            ty: b_to_a(ms[j].ty)->Some_0,
                            nullable: ms[j].nullable,
                        }),
                decreases fs@.len() - i,
            {
                proof {
                    assert(decreases_to!(fs => fs[i as int]));
                }
                let f = &fs[i];
                assert(ms[i as int] == f@);
                let d = match to_a(&f.dtype) {
                    Ok(d) => d,
                    Err(e) => {
                        assert(b_to_a(ms[i as int].ty) is None);
                        assert(b_to_a(t@) is None);
                        return Err(e);
                    },
                };
                out.push(ArrowField { name: f.name.clone(), data_type: d, nullable: f.nullable });
                i += 1;
            }
            let r = ArrowType::Struct(out);
            assert(b_to_a(t@) is Some);
            assert(r@->Struct_0.len() == out@.len());
            assert forall|j: int| 0 <= j < out@.len() implies r@->Struct_0[j] == #[trigger] out@[j]@ by {}
            let ghost want = b_to_a(t@)->Some_0->Struct_0;
            assert(want.len() == ms.len());
            assert forall|j: int| 0 <= j < out@.len() implies #[trigger] want[j] == out@[j]@ by {
                assert(want[j].ty == b_to_a(ms[j].ty)->Some_0);
            }
            assert(r@->Struct_0 =~= want);
            Ok(r)
        },
    }
}


impl ArrowType {
    /// Structural equality: same kind, and for nested kinds the same children in order.
    pub fn same_as(&self, other: &ArrowType) -> (r: bool)
        ensures
            r == (self@ == other@),
        decreases self,
    {
        match (self, other) {
            (ArrowType::Boolean, ArrowType::Boolean) => true,
            (ArrowType::Int8, ArrowType::Int8) => true,
            (ArrowType::Int16, ArrowType::Int16) => true,
            (ArrowType::Int32, ArrowType::Int32) => true,
            (ArrowType::Int64, ArrowType::Int64) => true,
            (ArrowType::UInt8, ArrowType::UInt8) => true,
            (ArrowType::UInt16, ArrowType::UInt16) => true,
            (ArrowType::UInt32, ArrowType::UInt32) => true,
            (ArrowType::UInt64, ArrowType::UInt64) => true,
            (ArrowType::Float16, ArrowType::Float16) => true,
            (ArrowType::Float32, ArrowType::Float32) => true,
            (ArrowType::Float64, ArrowType::Float64) => true,
            (ArrowType::Utf8, ArrowType::Utf8) => true,
            (ArrowType::LargeUtf8, ArrowType::LargeUtf8) => true,
            (ArrowType::Binary, ArrowType::Binary) => true,
            (ArrowType::LargeBinary, ArrowType::LargeBinary) => true,
            (ArrowType::Date32, ArrowType::Date32) => true,
            (ArrowType::Date64, ArrowType::Date64) => true,
            (ArrowType::Null, ArrowType::Null) => true,
            (ArrowType::Timestamp(u, a), ArrowType::Timestamp(v, b)) => *u == *v && same_tz(a, b),
            (ArrowType::Time32(u), ArrowType::Time32(v)) => *u == *v,
            (ArrowType::Time64(u), ArrowType::Time64(v)) => *u == *v,
            (ArrowType::Duration(u), ArrowType::Duration(v)) => *u == *v,
            (ArrowType::FixedSizeBinary(u), ArrowType::FixedSizeBinary(v)) => *u == *v,
            (ArrowType::List(x), ArrowType::List(y)) => {
                let r = x.same_as(y);
                proof {
                    if !r {
                        assert(self@->List_0 != other@->List_0);
                    }
                }
                r
            },
            (ArrowType::LargeList(x), ArrowType::LargeList(y)) => {
                let r = x.same_as(y);
                proof {
                    if !r {
                        assert(self@->LargeList_0 != other@->LargeList_0);
                    }
                }
                r
            },
            (ArrowType::Struct(xs), ArrowType::Struct(ys)) => {
                if xs.len() != ys.len() {
                    assert(self@->Struct_0.len() != other@->Struct_0.len());
                    return false;
                }
                let ghost ms = self@->Struct_0;
                let ghost ns = other@->Struct_0;
                let mut i: usize = 0;
                while i < xs.len()
                    invariant
                        ms == self@->Struct_0,
                        ns == other@->Struct_0,
                        *self == ArrowType::Struct(*xs),
                        *other == ArrowType::Struct(*ys),
                        ms.len() == xs@.len(),
                        ns.len() == ys@.len(),
                        xs@.len() == ys@.len(),
                        i <= xs@.len(),
                        forall|j: int| 0 <= j < i ==> #[trigger] ms[j] == ns[j],
                    decreases xs@.len() - i,
                {
                    proof {
                        assert(decreases_to!(xs => xs[i as int]));
                    }
                    let f = &xs[i];
                    let g = &ys[i];
                    assert(ms[i as int] == f@);
                    assert(ns[i as int] == g@);
                    if f.name != g.name || f.nullable != g.nullable || !f.data_type.same_as(&g.data_type) {
                        assert(ms[i as int] != ns[i as int]);
                        return false;
                    }
                    i += 1;
                }
                assert(ms =~= ns);
                true
            },
            _ => false,
        }
    }


    /// A copy with the same model.
    pub fn duplicate(&self) -> (r: ArrowType)
        ensures
            r@ == self@,
        decreases self,
    {
        match self {
            ArrowType::Boolean => ArrowType::Boolean,
            ArrowType::Int8 => ArrowType::Int8,
            ArrowType::Int16 => ArrowType::Int16,
            ArrowType::Int32 => ArrowType::Int32,
            ArrowType::Int64 => ArrowType::Int64,
            ArrowType::UInt8 => ArrowType::UInt8,
            ArrowType::UInt16 => ArrowType::UInt16,
            ArrowType::UInt32 => ArrowType::UInt32,
            ArrowType::UInt64 => ArrowType::UInt64,
            ArrowType::Float16 => ArrowType::Float16,
            ArrowType::Float32 => ArrowType::Float32,
            ArrowType::Float64 => ArrowType::Float64,
            ArrowType::Utf8 => ArrowType::Utf8,
            ArrowType::LargeUtf8 => ArrowType::LargeUtf8,
            ArrowType::Binary => ArrowType::Binary,
            ArrowType::LargeBinary => ArrowType::LargeBinary,
            ArrowType::Date32 => ArrowType::Date32,
            ArrowType::Date64 => ArrowType::Date64,
            ArrowType::Null => ArrowType::Null,
            ArrowType::Timestamp(u, tz) => ArrowType::Timestamp(*u, duplicate_tz(tz)),
            ArrowType::Time32(u) => ArrowType::Time32(*u),
            ArrowType::Time64(u) => ArrowType::Time64(*u),
            ArrowType::Duration(u) => ArrowType::Duration(*u),
            ArrowType::FixedSizeBinary(w) => ArrowType::FixedSizeBinary(*w),
            ArrowType::List(x) => ArrowType::List(Box::new(x.duplicate())),
            ArrowType::LargeList(x) => ArrowType::LargeList(Box::new(x.duplicate())),
            ArrowType::Struct(xs) => {
                let ghost ms = self@->Struct_0;
                let mut out: Vec<ArrowField> = Vec::new();
                let mut i: usize = 0;
                while i < xs.len()
                    invariant
                        ms == self@->Struct_0,
                        *self == ArrowType::Struct(*xs),
                        ms.len() == xs@.len(),
                        i <= xs@.len(),
                        out@.len() == i,
                        forall|j: int| 0 <= j < i ==> #[trigger] out@[j]@ == ms[j],
                    decreases xs@.len() - i,
                {
                    proof {
                        assert(decreases_to!(xs => xs[i as int]));
                    }
                    let f = &xs[i];
                    assert(ms[i as int] == f@);
                    out.push(ArrowField { name: f.name.clone(), data_type: f.data_type.duplicate(), nullable: f.nullable });
                    i += 1;
                }
                let r = ArrowType::Struct(out);
                assert forall|j: int| 0 <= j < out@.len() implies #[trigger] r@->Struct_0[j] == ms[j] by {
                    assert(r@->Struct_0[j] == out@[j]@);
                }
                assert(r@->Struct_0 =~= ms);
                r
            },
        }
    }
}

impl PolarsType {
    /// Structural equality: same kind, and for nested kinds the same children in order.
    pub fn same_as(&self, other: &PolarsType) -> (r: bool)
        ensures
            r == (self@ == other@),
        decreases self,
    {
        match (self, other) {
            (PolarsType::Boolean, PolarsType::Boolean) => true,
            (PolarsType::Int8, PolarsType::Int8) => true,
            (PolarsType::Int16, PolarsType::Int16) => true,
            (PolarsType::Int32, PolarsType::Int32) => true,
            (PolarsType::Int64, PolarsType::Int64) => true,
            (PolarsType::UInt8, PolarsType::UInt8) => true,
            (PolarsType::UInt16, PolarsType::UInt16) => true,
            (PolarsType::UInt32, PolarsType::UInt32) => true,
            (PolarsType::UInt64, PolarsType::UInt64) => true,
            (PolarsType::Float32, PolarsType::Float32) => true,
            (PolarsType::Float64, PolarsType::Float64) => true,
            (PolarsType::String, PolarsType::String) => true,
            (PolarsType::Binary, PolarsType::Binary) => true,
            (PolarsType::Date, PolarsType::Date) => true,
            (PolarsType::Unknown, PolarsType::Unknown) => true,
            (PolarsType::Datetime(u, a), PolarsType::Datetime(v, b)) => *u == *v && same_tz(a, b),
            (PolarsType::Duration(u), PolarsType::Duration(v)) => *u == *v,
            (PolarsType::Time, PolarsType::Time) => true,
            (PolarsType::Null, PolarsType::Null) => true,
            (PolarsType::List(x), PolarsType::List(y)) => {
                let r = x.same_as(y);
                proof {
                    if !r {
                        assert(self@->List_0 != other@->List_0);
                    }
                }
                r
            },
            (PolarsType::Struct(xs), PolarsType::Struct(ys)) => {
                if xs.len() != ys.len() {
                    assert(self@->Struct_0.len() != other@->Struct_0.len());
                    return false;
                }
                let ghost ms = self@->Struct_0;
                let ghost ns = other@->Struct_0;
                let mut i: usize = 0;
                while i < xs.len()
                    invariant
                        ms == self@->Struct_0,
                        ns == other@->Struct_0,
                        *self == PolarsType::Struct(*xs),
                        *other == PolarsType::Struct(*ys),
                        ms.len() == xs@.len(),
                        ns.len() == ys@.len(),
                        xs@.len() == ys@.len(),
                        i <= xs@.len(),
                        forall|j: int| 0 <= j < i ==> #[trigger] ms[j] == ns[j],
                    decreases xs@.len() - i,
                {
                    proof {
                        assert(decreases_to!(xs => xs[i as int]));
                    }
                    let f = &xs[i];
                    let g = &ys[i];
                    assert(ms[i as int] == f@);
                    assert(ns[i as int] == g@);
                    if f.name != g.name || f.nullable != g.nullable || !f.dtype.same_as(&g.dtype) {
                        assert(ms[i as int] != ns[i as int]);
                        return false;
                    }
                    i += 1;
                }
                assert(ms =~= ns);
                true
            },
            _ => false,
        }
    }

    /// A copy with the same model.
    pub fn duplicate(&self) -> (r: PolarsType)
        ensures
            r@ == self@,
        decreases self,
    {
        match self {
            PolarsType::Boolean => PolarsType::Boolean,
            PolarsType::Int8 => PolarsType::Int8,
            PolarsType::Int16 => PolarsType::Int16,
            PolarsType::Int32 => PolarsType::Int32,
            PolarsType::Int64 => PolarsType::Int64,
            PolarsType::UInt8 => PolarsType::UInt8,
            PolarsType::UInt16 => PolarsType::UInt16,
            PolarsType::UInt32 => PolarsType::UInt32,
            PolarsType::UInt64 => PolarsType::UInt64,
            PolarsType::Float32 => PolarsType::Float32,
            PolarsType::Float64 => PolarsType::Float64,
            PolarsType::String => PolarsType::String,
            PolarsType::Binary => PolarsType::Binary,
            PolarsType::Date => PolarsType::Date,
            PolarsType::Unknown => PolarsType::Unknown,
            PolarsType::Datetime(u, tz) => PolarsType::Datetime(*u, duplicate_tz(tz)),
            PolarsType::Duration(u) => PolarsType::Duration(*u),
            PolarsType::Time => PolarsType::Time,
            PolarsType::Null => PolarsType::Null,
            PolarsType::List(x) => PolarsType::List(Box::new(x.duplicate())),
            PolarsType::Struct(xs) => {
                let ghost ms = self@->Struct_0;
                let mut out: Vec<PolarsField> = Vec::new();
                let mut i: usize = 0;
                while i < xs.len()
                    invariant
                        ms == self@->Struct_0,
                        *self == PolarsType::Struct(*xs),
                        ms.len() == xs@.len(),
                        i <= xs@.len(),
                        out@.len() == i,
                        forall|j: int| 0 <= j < i ==> #[trigger] out@[j]@ == ms[j],
                    decreases xs@.len() - i,
                {
                    proof {
                        assert(decreases_to!(xs => xs[i as int]));
                    }
                    let f = &xs[i];
                    assert(ms[i as int] == f@);
                    out.push(PolarsField { name: f.name.clone(), dtype: f.dtype.duplicate(), nullable: f.nullable });
                    i += 1;
                }
                let r = PolarsType::Struct(out);
                assert forall|j: int| 0 <= j < out@.len() implies #[trigger] r@->Struct_0[j] == ms[j] by {
                    assert(r@->Struct_0[j] == out@[j]@);
                }
                assert(r@->Struct_0 =~= ms);
                r
            },
        }
    }
}

impl ArrowField {
    /// A copy with the same model.
    pub fn duplicate(&self) -> (r: ArrowField)
        ensures
            r@ == self@,
    {
        ArrowField { name: self.name.clone(), data_type: self.data_type.duplicate(), nullable: self.nullable }
    }
}

impl PolarsField {
    /// A copy with the same model.
    pub fn duplicate(&self) -> (r: PolarsField)
        ensures
            r@ == self@,
    {
        PolarsField { name: self.name.clone(), dtype: self.dtype.duplicate(), nullable: self.nullable }
    }
}

} // verus!
