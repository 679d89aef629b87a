//! Conversion of schemas, arrays and record batches between two implementations of the
//! columnar format that share one memory layout: a data-access side (`ArrowType`,
//! `RecordBatch`) and a dataframe side (`PolarsType`, `DataFrame`).
//!
//! - `dtype`: the two type enumerations and the mapping between them.
//! - `schema`: fields and schemas, converted positionally.
//! - `array`: the shared array layout and the ownership hand-off of one array.
//! - `frame`: record batches, dataframes, and a batch crossing as one struct array.
//! - `accumulate`: folding a sequence of batches into one dataframe.
//! - `reader`: reading a dataframe back as one batch per chunk.
//! - `adapter`: a schema paired with batches that all carry it.
pub mod dtype;
pub mod schema;
pub mod array;
pub mod frame;
pub mod accumulate;
pub mod reader;
pub mod adapter;
