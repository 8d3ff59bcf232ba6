//! Conversion of fixed-width, sentinel-null columnar data into the page
//! and statistics structures of a columnar on-disk format.
//!
//! The source storage marks "no value" with an in-band sentinel (the
//! minimum 32/64-bit integer, NaN); the target format wants an explicit
//! validity stream plus per-page statistics that exclude nulls. This crate
//! owns that bridge: classifying sentinel nulls, tiling a column into
//! byte-budgeted row ranges, encoding each range into a page payload with
//! a run-length validity stream, aggregating min/max/null-count, and
//! packaging the result into the format's page headers.

use vstd::prelude::*;

pub mod chunker;
pub mod encoder;
pub mod levels;
pub mod nullable;
pub mod pages;
pub mod statistics;

pub use nullable::Nullable;
pub use pages::{build_page_v1, build_page_v2, column_chunk_to_pages, slice_to_page, slice_to_page_v2};

verus! {

/// A contiguous sub-sequence of a column's rows: `offset` is the index of
/// its first row, `length` the number of rows it covers.
#[derive(Clone, Copy, PartialEq, Eq, Structural, Debug)]
pub struct RowRange {
    pub offset: usize,
    pub length: usize,
}

} // verus!
