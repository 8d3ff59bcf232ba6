//! Packaging encoded chunks into the container library's page objects.
//!
//! Everything up to the finished payload — chunking, classification,
//! validity stream, value bytes, statistics — is computed and verified in
//! this crate; this module hands those plain values to the container
//! library (parquet2), which packages them into its header and page
//! types. Each call into it sits behind a small trusted wrapper, and what
//! the built objects carry is named by uninterpreted projections so that
//! the page functions can state their results exactly.

use vstd::prelude::*;

use parquet2::encoding::Encoding;
use parquet2::metadata::Descriptor;
use parquet2::page::{DataPage, DataPageHeader, DataPageHeaderV1, DataPageHeaderV2, Page};
use parquet2::schema::types::PrimitiveType;
use parquet2::statistics::{serialize_statistics, ParquetStatistics, PrimitiveStatistics};

use crate::chunker::{chunk_ranges, spec_ranges, spec_rows_per_page};
use crate::encoder::{
    slice_to_page_data, slice_to_page_data_v2, spec_i32_bits, spec_page_buffer,
    spec_page_buffer_v2, spec_u32_le, validity_of,
};
use crate::levels::spec_validity_bytes;
use crate::nullable::is_null_i32;
use crate::statistics::{non_null_values, seq_max, seq_min, spec_null_count};
use crate::RowRange;

verus! {

#[verifier::external_type_specification]
#[verifier::external_body]
pub struct ExPrimitiveType(PrimitiveType);

#[verifier::external_type_specification]
#[verifier::external_body]
pub struct ExEncoding(Encoding);

#[verifier::external_type_specification]
#[verifier::external_body]
pub struct ExParquetStatistics(ParquetStatistics);

#[verifier::external_type_specification]
#[verifier::external_body]
pub struct ExDataPage(DataPage);

#[verifier::external_type_specification]
#[verifier::external_body]
pub struct ExPage(Page);

/// Which header variant a data page carries.
#[derive(Clone, Copy, PartialEq, Eq, Structural, Debug)]
pub enum PageVersion {
    V1,
    V2,
}

/// The data page a page wraps, if it is a data page.
pub uninterp spec fn page_data(p: Page) -> Option<DataPage>;

/// The page's payload bytes.
pub uninterp spec fn data_page_bytes(p: DataPage) -> Seq<u8>;

/// Which header variant the page carries.
pub uninterp spec fn data_page_version(p: DataPage) -> PageVersion;

/// The header's value count (one definition level per row here).
pub uninterp spec fn data_page_num_values(p: DataPage) -> int;

/// The V2 header's null count.
pub uninterp spec fn data_page_num_nulls(p: DataPage) -> int;

/// The V2 header's row count field.
pub uninterp spec fn data_page_num_rows(p: DataPage) -> int;

/// The row count recorded on the page at construction.
pub uninterp spec fn data_page_row_count(p: DataPage) -> Option<int>;

/// The header's value encoding.
pub uninterp spec fn data_page_encoding(p: DataPage) -> Encoding;

/// Whether a V1 header marks both level streams as RLE-encoded.
pub uninterp spec fn data_page_levels_rle(p: DataPage) -> bool;

/// The V2 header's definition- and repetition-level byte lengths.
pub uninterp spec fn data_page_levels_byte_lengths(p: DataPage) -> (int, int);

/// The V2 header's compression flag.
pub uninterp spec fn data_page_is_compressed(p: DataPage) -> Option<bool>;

/// The statistics object the header carries.
pub uninterp spec fn data_page_statistics(p: DataPage) -> Option<ParquetStatistics>;

/// The column type in the page's descriptor.
pub uninterp spec fn data_page_primitive_type(p: DataPage) -> PrimitiveType;

/// The descriptor's maximum definition and repetition levels.
pub uninterp spec fn data_page_max_levels(p: DataPage) -> (int, int);

/// Whether an encoding value is the PLAIN marker.
pub uninterp spec fn encoding_is_plain(e: Encoding) -> bool;

/// The null count a wire statistics object carries.
pub uninterp spec fn stats_null_count(s: ParquetStatistics) -> Option<int>;

/// The little-endian min-value bytes a wire statistics object carries.
pub uninterp spec fn stats_min_bytes(s: ParquetStatistics) -> Option<Seq<u8>>;

/// The little-endian max-value bytes a wire statistics object carries.
pub uninterp spec fn stats_max_bytes(s: ParquetStatistics) -> Option<Seq<u8>>;

/// The declared physical type of a column, as plain data the verified
/// logic can inspect.
#[derive(Clone, Copy, PartialEq, Eq, Structural, Debug)]
pub enum PhysicalKind {
    Boolean,
    Int32,
    Int64,
    Int96,
    Float,
    Double,
    ByteArray,
    FixedLenByteArray(usize),
}

/// The column's declared physical type does not match the value width
/// being encoded.
#[derive(Clone, Copy, PartialEq, Eq, Structural, Debug)]
pub struct SchemaMismatchError;

/// Relies on parquet2's `PrimitiveType`: reads which variant its
/// `physical_type` field holds, moving the fixed length out.
#[verifier::external_body]
fn physical_kind(primitive_type: &PrimitiveType) -> PhysicalKind {
    match primitive_type.physical_type {
        parquet2::schema::types::PhysicalType::Boolean => PhysicalKind::Boolean,
        parquet2::schema::types::PhysicalType::Int32 => PhysicalKind::Int32,
        parquet2::schema::types::PhysicalType::Int64 => PhysicalKind::Int64,
        parquet2::schema::types::PhysicalType::Int96 => PhysicalKind::Int96,
        parquet2::schema::types::PhysicalType::Float => PhysicalKind::Float,
        parquet2::schema::types::PhysicalType::Double => PhysicalKind::Double,
        parquet2::schema::types::PhysicalType::ByteArray => PhysicalKind::ByteArray,
        parquet2::schema::types::PhysicalType::FixedLenByteArray(n) => {
            PhysicalKind::FixedLenByteArray(n)
        },
    }
}

/// Relies on `Clone` for parquet2's `PrimitiveType`: the derived clone
/// copies every field, so the result equals the input descriptor.
#[verifier::external_body]
fn clone_primitive_type(primitive_type: &PrimitiveType) -> (r: PrimitiveType)
    ensures
        r == *primitive_type,
{
    primitive_type.clone()
}

/// Relies on parquet2's `Encoding`: the PLAIN value encoding marker.
#[verifier::external_body]
fn plain_encoding() -> (r: Encoding)
    ensures
        encoding_is_plain(r),
{
    Encoding::Plain
}

/// Relies on parquet2's `serialize_statistics` over
/// `PrimitiveStatistics<i32>`: the wire object carries the given null
/// count, and each given bound as its four little-endian bytes, absent
/// bounds staying absent.
#[verifier::external_body]
fn serialize_statistics_i32(
    primitive_type: &PrimitiveType,
    null_count: u64,
    min_max: Option<(i32, i32)>,
) -> (r: ParquetStatistics)
    requires
        null_count <= i64::MAX,
    ensures
        stats_null_count(r) == Some(null_count as int),
        stats_min_bytes(r) == (match min_max {
            Option::Some(mm) => Some(spec_u32_le(spec_i32_bits(mm.0))),
            Option::None => None::<Seq<u8>>,
        }),
        stats_max_bytes(r) == (match min_max {
            Option::Some(mm) => Some(spec_u32_le(spec_i32_bits(mm.1))),
            Option::None => None::<Seq<u8>>,
        }),
{
    serialize_statistics(
        &PrimitiveStatistics::<i32> {
            primitive_type: primitive_type.clone(),
            null_count: Some(null_count as i64),
            distinct_count: None,
            min_value: min_max.map(|mm| mm.0),
            max_value: min_max.map(|mm| mm.1),
        },
    )
}

/// Relies on parquet2's `DataPage::new` and `DataPageHeaderV1`: packages
/// an encoded payload, its counts and its statistics into a V1 data page
/// whose levels are RLE-encoded, over a flat descriptor (no nesting, no
/// repetition). The buffer, counts, encoding and statistics pass through
/// unchanged; the width requires keep the `i32` casts exact.
#[verifier::external_body]
pub fn build_page_v1(
    buffer: Vec<u8>,
    num_values: usize,
    num_rows: usize,
    statistics: Option<ParquetStatistics>,
    primitive_type: PrimitiveType,
    encoding: Encoding,
) -> (r: DataPage)
    requires
        num_values <= i32::MAX,
        num_rows <= i32::MAX,
    ensures
        data_page_bytes(r) == buffer@,
        data_page_version(r) == PageVersion::V1,
        data_page_num_values(r) == num_values as int,
        data_page_row_count(r) == Some(num_rows as int),
        data_page_encoding(r) == encoding,
        data_page_levels_rle(r),
        data_page_statistics(r) == statistics,
        data_page_primitive_type(r) == primitive_type,
        data_page_max_levels(r) == (0int, 0int),
{
    let header = DataPageHeader::V1(DataPageHeaderV1 {
        num_values: num_values as i32,
        encoding: encoding.into(),
        definition_level_encoding: Encoding::Rle.into(),
        repetition_level_encoding: Encoding::Rle.into(),
        statistics,
    });
    DataPage::new(
        header,
        buffer,
        Descriptor { primitive_type, max_def_level: 0, max_rep_level: 0 },
        Some(num_rows),
    )
}

/// Relies on parquet2's `DataPage::new` and `DataPageHeaderV2`: as
/// [`build_page_v1`], but carrying the null count, the level section
/// byte lengths and the compression flag explicitly in the header, each
/// equal to its argument, with the payload marked uncompressed.
#[verifier::external_body]
pub fn build_page_v2(
    buffer: Vec<u8>,
    num_values: usize,
    num_rows: usize,
    null_count: usize,
    repetition_levels_byte_length: usize,
    definition_levels_byte_length: usize,
    statistics: Option<ParquetStatistics>,
    primitive_type: PrimitiveType,
    encoding: Encoding,
) -> (r: DataPage)
    requires
        num_values <= i32::MAX,
        num_rows <= i32::MAX,
        null_count <= i32::MAX,
        repetition_levels_byte_length <= i32::MAX,
        definition_levels_byte_length <= i32::MAX,
    ensures
        data_page_bytes(r) == buffer@,
        data_page_version(r) == PageVersion::V2,
        data_page_num_values(r) == num_values as int,
        data_page_num_nulls(r) == null_count as int,
        data_page_num_rows(r) == num_rows as int,
        data_page_row_count(r) == Some(num_rows as int),
        data_page_levels_byte_lengths(r) == (
            definition_levels_byte_length as int,
            repetition_levels_byte_length as int,
        ),
        data_page_is_compressed(r) == Some(false),
        data_page_encoding(r) == encoding,
        data_page_statistics(r) == statistics,
        data_page_primitive_type(r) == primitive_type,
        data_page_max_levels(r) == (0int, 0int),
{
    let header = DataPageHeader::V2(DataPageHeaderV2::new(
        num_values as i32,
        null_count as i32,
        num_rows as i32,
        encoding.into(),
        definition_levels_byte_length as i32,
        repetition_levels_byte_length as i32,
        Some(false),
        statistics,
    ));
    let descriptor = Descriptor { primitive_type, max_def_level: 0, max_rep_level: 0 };
    DataPage::new(header, buffer, descriptor, Some(num_rows))
}

/// Relies on parquet2's `Page`: wraps a finished data page as a page,
/// carrying it unchanged.
#[verifier::external_body]
fn data_page_into_page(page: DataPage) -> (r: Page)
    ensures
        page_data(r) == Some(page),
{
    Page::Data(page)
}

/// The rows a range selects from a column.
pub open spec fn range_chunk(s: Seq<i32>, rg: RowRange) -> Seq<i32> {
    s.subrange(rg.offset as int, rg.offset + rg.length)
}

/// What [`slice_to_page`] builds from a chunk: a V1 data page whose
/// payload is the chunk's encoding and whose counts are the chunk's row
/// count.
pub open spec fn is_encoded_page_of(p: Page, chunk: Seq<i32>) -> bool {
    &&& page_data(p) is Some
    &&& data_page_bytes(page_data(p).unwrap()) == spec_page_buffer(chunk)
    &&& data_page_version(page_data(p).unwrap()) == PageVersion::V1
    &&& data_page_num_values(page_data(p).unwrap()) == chunk.len()
    &&& data_page_row_count(page_data(p).unwrap()) == Some(chunk.len() as int)
}

/// The statistics clauses shared by both page functions: the wire object
/// carries the chunk's sentinel count, and its bounds are the
/// little-endian bytes of the non-null minimum and maximum, absent for a
/// chunk with no non-null value.
pub open spec fn page_statistics_of(pd: DataPage, chunk: Seq<i32>) -> bool {
    &&& data_page_statistics(pd) is Some
    &&& stats_null_count(data_page_statistics(pd).unwrap()) == Some(spec_null_count(chunk))
    &&& stats_min_bytes(data_page_statistics(pd).unwrap()) == (if non_null_values(chunk).len()
        > 0 {
        Some(spec_u32_le(spec_i32_bits(seq_min(non_null_values(chunk)))))
    } else {
        None::<Seq<u8>>
    })
    &&& stats_max_bytes(data_page_statistics(pd).unwrap()) == (if non_null_values(chunk).len()
        > 0 {
        Some(spec_u32_le(spec_i32_bits(seq_max(non_null_values(chunk)))))
    } else {
        None::<Seq<u8>>
    })
}

/// Encode one chunk of a 32-bit integer column into a finished V1 data
/// page: the verified encoder computes the payload and statistics, the
/// container library packages them, and the projections pin what the
/// page carries.
pub fn slice_to_page(column_type: PrimitiveType, chunk: &[i32]) -> (r: Page)
    requires
        chunk@.len() <= 0x3fff_ffff,
    ensures
        is_encoded_page_of(r, chunk@),
        ({
            let pd = page_data(r).unwrap();
            &&& encoding_is_plain(data_page_encoding(pd))
            &&& data_page_levels_rle(pd)
            &&& data_page_max_levels(pd) == (0int, 0int)
            &&& data_page_primitive_type(pd) == column_type
            &&& page_statistics_of(pd, chunk@)
        }),
{
    let data = slice_to_page_data(chunk);
    proof {
        chunk@.lemma_filter_len(|v: i32| is_null_i32(v));
    }
    let statistics = serialize_statistics_i32(
        &column_type,
        data.statistics.null_count,
        data.statistics.min_max,
    );
    let page = build_page_v1(
        data.buffer,
        data.value_count,
        data.row_count,
        Some(statistics),
        column_type,
        plain_encoding(),
    );
    data_page_into_page(page)
}

/// As [`slice_to_page`], but packaged behind a V2 header, which carries
/// the null count and the validity stream's byte length explicitly —
/// so a reader finds the value section without parsing the stream — and
/// flags the payload as uncompressed.
pub fn slice_to_page_v2(column_type: PrimitiveType, chunk: &[i32]) -> (r: Page)
    requires
        chunk@.len() <= 0x3fff_ffff,
    ensures
        page_data(r) is Some,
        ({
            let pd = page_data(r).unwrap();
            &&& data_page_bytes(pd) == spec_page_buffer_v2(chunk@)
            &&& data_page_version(pd) == PageVersion::V2
            &&& data_page_num_values(pd) == chunk@.len()
            &&& data_page_num_nulls(pd) == spec_null_count(chunk@)
            &&& data_page_num_rows(pd) == chunk@.len()
            &&& data_page_row_count(pd) == Some(chunk@.len() as int)
            &&& data_page_levels_byte_lengths(pd) == (
                spec_validity_bytes(validity_of(chunk@)).len() as int,
                0int,
            )
            &&& data_page_is_compressed(pd) == Some(false)
            &&& encoding_is_plain(data_page_encoding(pd))
            &&& data_page_max_levels(pd) == (0int, 0int)
            &&& data_page_primitive_type(pd) == column_type
            &&& page_statistics_of(pd, chunk@)
        }),
{
    let data = slice_to_page_data_v2(chunk);
    proof {
        chunk@.lemma_filter_len(|v: i32| is_null_i32(v));
        crate::levels::lemma_validity_bytes_len(validity_of(chunk@));
    }
    let statistics = serialize_statistics_i32(
        &column_type,
        data.statistics.null_count,
        data.statistics.min_max,
    );
    let null_count = data.statistics.null_count as usize;
    let page = build_page_v2(
        data.buffer,
        data.value_count,
        data.row_count,
        null_count,
        0,
        data.definition_levels_byte_length,
        Some(statistics),
        column_type,
        plain_encoding(),
    );
    data_page_into_page(page)
}

/// Encode a column already classified by its declared physical kind:
/// exactly a 32-bit integer declaration is accepted, and then every
/// chunker range becomes one page, in column order, each page the
/// encoding of its own range.
#[verifier::loop_isolation(false)]
pub fn pages_for_physical_kind(
    kind: PhysicalKind,
    column_type: PrimitiveType,
    slice: &[i32],
    data_pagesize_limit: Option<usize>,
) -> (r: Result<Vec<Page>, SchemaMismatchError>)
    ensures
        r is Ok <==> kind == PhysicalKind::Int32,
        r is Ok ==> r.unwrap()@.len() == spec_ranges(
            slice@.len() as int,
            spec_rows_per_page(data_pagesize_limit, 4),
        ).len(),
        r is Ok ==> forall|i: int|
            0 <= i < r.unwrap()@.len() ==> is_encoded_page_of(
                #[trigger] r.unwrap()@[i],
                range_chunk(
                    slice@,
                    spec_ranges(slice@.len() as int, spec_rows_per_page(data_pagesize_limit, 4))[i],
                ),
            ),
{
    if kind != (PhysicalKind::Int32) {
        return Result::Err(SchemaMismatchError);
    }
    let ghost rpp = spec_rows_per_page(data_pagesize_limit, 4);
    let ranges = chunk_ranges(slice.len(), data_pagesize_limit, 4);
    proof {
        crate::chunker::lemma_ranges_partition(slice@.len() as int, rpp);
        assert(rpp <= 0x3fff_ffff) by {
            vstd::arithmetic::div_mod::lemma_div_is_ordered(
                crate::chunker::spec_max_page_bytes(data_pagesize_limit),
                0x7e00_0000,
                5,
            );
        }
    }
    let mut pages: Vec<Page> = Vec::new();
    let mut idx: usize = 0;
    while idx < ranges.len()
        invariant
            0 <= idx <= ranges@.len(),
            pages@.len() == idx,
            forall|j: int|
                0 <= j < idx ==> is_encoded_page_of(
                    #[trigger] pages@[j],
                    range_chunk(slice@, ranges@[j]),
                ),
        decreases ranges@.len() - idx,
    {
        let range = ranges[idx];
        assert(range.offset + range.length <= slice@.len());
        assert(range.length <= rpp);
        let sub = vstd::slice::slice_subrange(slice, range.offset, range.offset + range.length);
        pages.push(slice_to_page(clone_primitive_type(&column_type), sub));
        proof {
            assert(sub@ == range_chunk(slice@, ranges@[idx as int]));
        }
        idx = idx + 1;
    }
    Result::Ok(pages)
}

/// Tile a 32-bit integer column into byte-budgeted chunks and encode
/// each as one page, after checking that the declared physical type
/// matches the 32-bit values being read.
///
/// On success the pages follow the chunker's ranges in column order,
/// page `i` carrying the encoding of range `i`; whether the schema check
/// passes depends on the opaque column descriptor, which
/// [`pages_for_physical_kind`] pins once the kind is read out.
pub fn column_chunk_to_pages(
    column_type: PrimitiveType,
    slice: &[i32],
    data_pagesize_limit: Option<usize>,
    _encoding: Encoding,
) -> (r: Result<Vec<Page>, SchemaMismatchError>)
    ensures
        r is Ok ==> r.unwrap()@.len() == spec_ranges(
            slice@.len() as int,
            spec_rows_per_page(data_pagesize_limit, 4),
        ).len(),
        r is Ok ==> forall|i: int|
            0 <= i < r.unwrap()@.len() ==> is_encoded_page_of(
                #[trigger] r.unwrap()@[i],
                range_chunk(
                    slice@,
                    spec_ranges(slice@.len() as int, spec_rows_per_page(data_pagesize_limit, 4))[i],
                ),
            ),
{
    let kind = physical_kind(&column_type);
    pages_for_physical_kind(kind, column_type, slice, data_pagesize_limit)
}

} // verus!
