//! Encoding one row range of a column into a page payload.
//!
//! A payload is the validity stream behind its 32-bit little-endian
//! length prefix, followed by the non-null values in fixed-width
//! little-endian form; null positions contribute no value bytes. The
//! statistics of the same chunk ride along so that a header builder can
//! package everything into a page.

use vstd::prelude::*;

use crate::levels::{encode_validity, lemma_validity_bytes_len, spec_validity_bytes};
use crate::nullable::{is_null_i32, F32Bits, Nullable};
use crate::statistics::{
    build_statistics, build_statistics_f32, non_null_values, non_null_values_f32, seq_max,
    seq_max_f32, seq_min, seq_min_f32, spec_null_count, spec_null_count_f32, PageStatistics,
};

verus! {

/// One encoded row range: the full payload, the byte length of its
/// validity section (length prefix included), the row and value counts,
/// and the chunk's statistics. `value_count` counts the definition
/// levels, one per row, so it equals `row_count` for these flat columns.
pub struct EncodedPage<T> {
    pub buffer: Vec<u8>,
    pub definition_levels_byte_length: usize,
    pub row_count: usize,
    pub value_count: usize,
    pub statistics: PageStatistics<T>,
}

/// The little-endian bytes of a 32-bit quantity given as an integer in
/// `[0, 2^32)`.
pub open spec fn spec_u32_le(u: int) -> Seq<u8> {
    seq![
        (u % 256) as u8,
        (u / 256 % 256) as u8,
        (u / 65536 % 256) as u8,
        (u / 16777216 % 256) as u8,
    ]
}

/// A 32-bit signed value reinterpreted as its unsigned bit pattern.
pub open spec fn spec_i32_bits(v: i32) -> int {
    if v >= 0 {
        v as int
    } else {
        v + 0x1_0000_0000
    }
}

/// The little-endian encoding of a sequence of 32-bit signed values.
pub open spec fn spec_values_bytes(vals: Seq<i32>) -> Seq<u8>
    decreases vals.len(),
{
    if vals.len() == 0 {
        Seq::empty()
    } else {
        spec_values_bytes(vals.drop_last()) + spec_u32_le(spec_i32_bits(vals.last()))
    }
}

/// The little-endian encoding of a sequence of single-precision bit
/// patterns, four bytes per value.
pub open spec fn spec_values_bytes_f32(vals: Seq<F32Bits>) -> Seq<u8>
    decreases vals.len(),
{
    if vals.len() == 0 {
        Seq::empty()
    } else {
        spec_values_bytes_f32(vals.drop_last()) + spec_u32_le(vals.last().bits as int)
    }
}

/// The validity bit of each row: set exactly on the non-null positions.
pub open spec fn validity_of(s: Seq<i32>) -> Seq<bool> {
    Seq::new(s.len(), |i: int| !is_null_i32(s[i]))
}

/// As [`validity_of`], for single-precision bit patterns.
pub open spec fn validity_of_f32(s: Seq<F32Bits>) -> Seq<bool> {
    Seq::new(s.len(), |i: int| !s[i].spec_is_null())
}

/// The whole payload of a chunk: 32-bit length prefix, validity stream,
/// then the non-null values.
pub open spec fn spec_page_buffer(s: Seq<i32>) -> Seq<u8> {
    let levels = spec_validity_bytes(validity_of(s));
    spec_u32_le(levels.len() as int) + levels + spec_values_bytes(non_null_values(s))
}

/// As [`spec_page_buffer`], for single-precision bit patterns.
pub open spec fn spec_page_buffer_f32(s: Seq<F32Bits>) -> Seq<u8> {
    let levels = spec_validity_bytes(validity_of_f32(s));
    spec_u32_le(levels.len() as int) + levels + spec_values_bytes_f32(non_null_values_f32(s))
}

/// Push the four little-endian bytes of `u` onto `out`.
fn push_u32_le(out: &mut Vec<u8>, u: u32)
    ensures
        final(out)@ == old(out)@ + spec_u32_le(u as int),
{
    out.push((u % 256) as u8);
    out.push((u / 256 % 256) as u8);
    out.push((u / 65536 % 256) as u8);
    out.push((u / 16777216 % 256) as u8);
    proof {
        assert(out@ =~= old(out)@ + spec_u32_le(u as int));
    }
}

/// The unsigned bit pattern of a 32-bit signed value, computed without
/// loss through a 64-bit intermediate.
fn i32_bits(v: i32) -> (u: u32)
    ensures
        u as int == spec_i32_bits(v),
{
    let wide: i64 = v as i64;
    if wide >= 0 {
        wide as u32
    } else {
        (wide + 0x1_0000_0000) as u32
    }
}

/// The V2 payload of a chunk: the validity stream bare — its byte length
/// travels in the header instead of a prefix — then the non-null values.
pub open spec fn spec_page_buffer_v2(s: Seq<i32>) -> Seq<u8> {
    spec_validity_bytes(validity_of(s)) + spec_values_bytes(non_null_values(s))
}

/// Classify every row of the chunk, collecting the validity bit of each
/// row and the little-endian bytes of the non-null values.
fn encode_chunk_parts(chunk: &[i32]) -> (r: (Vec<bool>, Vec<u8>))
    ensures
        r.0@ == validity_of(chunk@),
        r.1@ == spec_values_bytes(non_null_values(chunk@)),
{
    let mut validity: Vec<bool> = Vec::new();
    let mut values: Vec<u8> = Vec::new();
    let mut i: usize = 0;
    while i < chunk.len()
        invariant
            0 <= i <= chunk@.len(),
            validity@ =~= validity_of(chunk@.take(i as int)),
            values@ =~= spec_values_bytes(non_null_values(chunk@.take(i as int))),
        decreases chunk@.len() - i,
    {
        let v = chunk[i];
        proof {
            assert(chunk@.take(i + 1) =~= chunk@.take(i as int).push(chunk@[i as int]));
            chunk@.take(i as int).lemma_filter_push(chunk@[i as int], |x: i32| !is_null_i32(x));
            assert(validity_of(chunk@.take(i + 1)) =~= validity_of(chunk@.take(i as int)).push(
                !is_null_i32(chunk@[i as int]),
            ));
            let nn = non_null_values(chunk@.take(i as int));
            assert(nn.push(chunk@[i as int]).drop_last() =~= nn);
        }
        if v.is_null() {
            validity.push(false);
        } else {
            validity.push(true);
            let bits = i32_bits(v);
            push_u32_le(&mut values, bits);
        }
        i = i + 1;
    }
    proof {
        assert(chunk@.take(i as int) =~= chunk@);
    }
    (validity, values)
}

/// Encode one row range of a 32-bit integer column into a V1 page
/// payload: classify every row, write the length-prefixed validity
/// stream and the non-null values, and aggregate the statistics of the
/// same rows.
///
/// The row count is capped well above anything the byte-budgeted chunker
/// can produce, keeping every byte length within the format's 32-bit
/// fields; callers validate chunk sizes against the chunker's budget.
pub fn slice_to_page_data(chunk: &[i32]) -> (r: EncodedPage<i32>)
    requires
        chunk@.len() <= 0x3fff_ffff,
    ensures
        r.buffer@ == spec_page_buffer(chunk@),
        r.definition_levels_byte_length == 4 + spec_validity_bytes(validity_of(chunk@)).len(),
        r.row_count == chunk@.len(),
        r.value_count == chunk@.len(),
        r.statistics.null_count == spec_null_count(chunk@),
        r.statistics.min_max is Some <==> non_null_values(chunk@).len() > 0,
        r.statistics.min_max is Some ==> r.statistics.min_max.unwrap().0 == seq_min(
            non_null_values(chunk@),
        ) && r.statistics.min_max.unwrap().1 == seq_max(non_null_values(chunk@)),
{
    let statistics = build_statistics(chunk);
    let (validity, mut values) = encode_chunk_parts(chunk);
    proof {
        lemma_validity_bytes_len(validity_of(chunk@));
    }
    let mut levels = encode_validity(&validity);
    let mut buffer: Vec<u8> = Vec::new();
    push_u32_le(&mut buffer, levels.len() as u32);
    let definition_levels_byte_length = levels.len() + 4;
    buffer.append(&mut levels);
    buffer.append(&mut values);
    proof {
        assert(buffer@ =~= spec_page_buffer(chunk@));
    }
    EncodedPage {
        buffer,
        definition_levels_byte_length,
        row_count: chunk.len(),
        value_count: chunk.len(),
        statistics,
    }
}

/// As [`slice_to_page_data`], laid out for a V2 header: the validity
/// stream is written bare and its byte length is returned for the header
/// to carry, so a reader finds the values without parsing the stream.
pub fn slice_to_page_data_v2(chunk: &[i32]) -> (r: EncodedPage<i32>)
    requires
        chunk@.len() <= 0x3fff_ffff,
    ensures
        r.buffer@ == spec_page_buffer_v2(chunk@),
        r.definition_levels_byte_length == spec_validity_bytes(validity_of(chunk@)).len(),
        r.row_count == chunk@.len(),
        r.value_count == chunk@.len(),
        r.statistics.null_count == spec_null_count(chunk@),
        r.statistics.min_max is Some <==> non_null_values(chunk@).len() > 0,
        r.statistics.min_max is Some ==> r.statistics.min_max.unwrap().0 == seq_min(
            non_null_values(chunk@),
        ) && r.statistics.min_max.unwrap().1 == seq_max(non_null_values(chunk@)),
{
    let statistics = build_statistics(chunk);
    let (validity, mut values) = encode_chunk_parts(chunk);
    proof {
        lemma_validity_bytes_len(validity_of(chunk@));
    }
    let mut buffer = encode_validity(&validity);
    let definition_levels_byte_length = buffer.len();
    buffer.append(&mut values);
    proof {
        assert(buffer@ =~= spec_page_buffer_v2(chunk@));
    }
    EncodedPage {
        buffer,
        definition_levels_byte_length,
        row_count: chunk.len(),
        value_count: chunk.len(),
        statistics,
    }
}

/// As [`slice_to_page_data`], for a single-precision column given as bit
/// patterns; NaN is the null sentinel.
pub fn slice_to_page_data_f32(chunk: &[F32Bits]) -> (r: EncodedPage<F32Bits>)
    requires
        chunk@.len() <= 0x3fff_ffff,
    ensures
        r.buffer@ == spec_page_buffer_f32(chunk@),
        r.definition_levels_byte_length == 4 + spec_validity_bytes(validity_of_f32(chunk@)).len(),
        r.row_count == chunk@.len(),
        r.value_count == chunk@.len(),
        r.statistics.null_count == spec_null_count_f32(chunk@),
        r.statistics.min_max is Some <==> non_null_values_f32(chunk@).len() > 0,
        r.statistics.min_max is Some ==> r.statistics.min_max.unwrap().0 == seq_min_f32(
            non_null_values_f32(chunk@),
        ) && r.statistics.min_max.unwrap().1 == seq_max_f32(non_null_values_f32(chunk@)),
{
    let statistics = build_statistics_f32(chunk);
    let mut validity: Vec<bool> = Vec::new();
    let mut values: Vec<u8> = Vec::new();
    let mut i: usize = 0;
    while i < chunk.len()
        invariant
            0 <= i <= chunk@.len() <= 0x3fff_ffff,
            validity@ =~= validity_of_f32(chunk@.take(i as int)),
            values@ =~= spec_values_bytes_f32(non_null_values_f32(chunk@.take(i as int))),
        decreases chunk@.len() - i,
    {
        let v = chunk[i];
        proof {
            assert(chunk@.take(i + 1) =~= chunk@.take(i as int).push(chunk@[i as int]));
            chunk@.take(i as int).lemma_filter_push(
                chunk@[i as int],
                |x: F32Bits| !x.spec_is_null(),
            );
            assert(validity_of_f32(chunk@.take(i + 1)) =~= validity_of_f32(
                chunk@.take(i as int),
            ).push(!chunk@[i as int].spec_is_null()));
            let nn = non_null_values_f32(chunk@.take(i as int));
            assert(nn.push(chunk@[i as int]).drop_last() =~= nn);
        }
        if v.is_null() {
            validity.push(false);
        } else {
            validity.push(true);
            push_u32_le(&mut values, v.bits);
        }
        i = i + 1;
    }
    proof {
        assert(chunk@.take(i as int) =~= chunk@);
        lemma_validity_bytes_len(validity_of_f32(chunk@));
    }
    let mut levels = encode_validity(&validity);
    let mut buffer: Vec<u8> = Vec::new();
    push_u32_le(&mut buffer, levels.len() as u32);
    let definition_levels_byte_length = levels.len() + 4;
    buffer.append(&mut levels);
    buffer.append(&mut values);
    proof {
        assert(buffer@ =~= spec_page_buffer_f32(chunk@));
    }
    EncodedPage {
        buffer,
        definition_levels_byte_length,
        row_count: chunk.len(),
        value_count: chunk.len(),
        statistics,
    }
}

/// A chunk as a reader sees it: each sentinel row absent, every other
/// row present with its value, in the original order.
pub open spec fn opt_view(s: Seq<i32>) -> Seq<Option<i32>> {
    Seq::new(
        s.len(),
        |i: int|
            if is_null_i32(s[i]) {
                Option::None
            } else {
                Option::Some(s[i])
            },
    )
}

/// Rebuilding a column from a validity stream and a stream of non-null
/// values: each set bit consumes the next value, each cleared bit yields
/// an absent row.
pub open spec fn reconstruct(validity: Seq<bool>, values: Seq<i32>) -> Seq<Option<i32>>
    decreases validity.len(),
{
    if validity.len() == 0 {
        Seq::empty()
    } else if validity[0] {
        seq![Option::Some(values[0])] + reconstruct(validity.skip(1), values.skip(1))
    } else {
        seq![Option::<i32>::None] + reconstruct(validity.skip(1), values)
    }
}

/// Round trip of one chunk: rebuilding rows from the encoded validity
/// bits and the retained non-null values yields the original chunk with
/// sentinels mapped to absent rows and all other rows kept, in order.
pub proof fn lemma_round_trip(chunk: Seq<i32>)
    ensures
        reconstruct(validity_of(chunk), non_null_values(chunk)) == opt_view(chunk),
    decreases chunk.len(),
{
    if chunk.len() == 0 {
        assert(validity_of(chunk) =~= Seq::<bool>::empty());
        assert(reconstruct(validity_of(chunk), non_null_values(chunk)) =~= opt_view(chunk));
    } else {
        let head = chunk[0];
        let tail = chunk.skip(1);
        lemma_round_trip(tail);
        assert(chunk =~= seq![head] + tail);
        tail.lemma_filter_prepend(head, |v: i32| !is_null_i32(v));
        let vv = validity_of(chunk);
        assert(vv.len() == chunk.len());
        assert(vv[0] == !is_null_i32(head));
        assert(vv.skip(1) =~= validity_of(tail));
        if is_null_i32(head) {
            assert(non_null_values(chunk) =~= Seq::<i32>::empty() + non_null_values(tail));
            assert(non_null_values(chunk) =~= non_null_values(tail));
            assert(reconstruct(vv, non_null_values(chunk)) =~= seq![Option::<i32>::None]
                + reconstruct(validity_of(tail), non_null_values(tail)));
            assert(opt_view(chunk) =~= seq![Option::<i32>::None] + opt_view(tail));
        } else {
            assert(non_null_values(chunk) =~= seq![head] + non_null_values(tail));
            assert(non_null_values(chunk)[0] == head);
            assert(non_null_values(chunk).skip(1) =~= non_null_values(tail));
            assert(reconstruct(vv, non_null_values(chunk)) =~= seq![Option::Some(head)]
                + reconstruct(validity_of(tail), non_null_values(tail)));
            assert(opt_view(chunk) =~= seq![Option::Some(head)] + opt_view(tail));
        }
    }
}

/// As [`reconstruct`], for single-precision bit patterns.
pub open spec fn reconstruct_f32(validity: Seq<bool>, values: Seq<F32Bits>) -> Seq<
    Option<F32Bits>,
>
    decreases validity.len(),
{
    if validity.len() == 0 {
        Seq::empty()
    } else if validity[0] {
        seq![Option::Some(values[0])] + reconstruct_f32(validity.skip(1), values.skip(1))
    } else {
        seq![Option::<F32Bits>::None] + reconstruct_f32(validity.skip(1), values)
    }
}

/// As [`opt_view`], for single-precision bit patterns: NaN rows absent.
pub open spec fn opt_view_f32(s: Seq<F32Bits>) -> Seq<Option<F32Bits>> {
    Seq::new(
        s.len(),
        |i: int|
            if s[i].spec_is_null() {
                Option::None
            } else {
                Option::Some(s[i])
            },
    )
}

/// As [`lemma_round_trip`], for a single-precision chunk.
pub proof fn lemma_round_trip_f32(chunk: Seq<F32Bits>)
    ensures
        reconstruct_f32(validity_of_f32(chunk), non_null_values_f32(chunk)) == opt_view_f32(chunk),
    decreases chunk.len(),
{
    if chunk.len() == 0 {
        assert(validity_of_f32(chunk) =~= Seq::<bool>::empty());
        assert(reconstruct_f32(validity_of_f32(chunk), non_null_values_f32(chunk)) =~= opt_view_f32(
            chunk,
        ));
    } else {
        let head = chunk[0];
        let tail = chunk.skip(1);
        lemma_round_trip_f32(tail);
        assert(chunk =~= seq![head] + tail);
        tail.lemma_filter_prepend(head, |v: F32Bits| !v.spec_is_null());
        let vv = validity_of_f32(chunk);
        assert(vv.len() == chunk.len());
        assert(vv[0] == !head.spec_is_null());
        assert(vv.skip(1) =~= validity_of_f32(tail));
        if head.spec_is_null() {
            assert(non_null_values_f32(chunk) =~= Seq::<F32Bits>::empty() + non_null_values_f32(
                tail,
            ));
            assert(non_null_values_f32(chunk) =~= non_null_values_f32(tail));
            assert(reconstruct_f32(vv, non_null_values_f32(chunk)) =~= seq![
                Option::<F32Bits>::None,
            ] + reconstruct_f32(validity_of_f32(tail), non_null_values_f32(tail)));
            assert(opt_view_f32(chunk) =~= seq![Option::<F32Bits>::None] + opt_view_f32(tail));
        } else {
            assert(non_null_values_f32(chunk) =~= seq![head] + non_null_values_f32(tail));
            assert(non_null_values_f32(chunk)[0] == head);
            assert(non_null_values_f32(chunk).skip(1) =~= non_null_values_f32(tail));
            assert(reconstruct_f32(vv, non_null_values_f32(chunk)) =~= seq![Option::Some(head)]
                + reconstruct_f32(validity_of_f32(tail), non_null_values_f32(tail)));
            assert(opt_view_f32(chunk) =~= seq![Option::Some(head)] + opt_view_f32(tail));
        }
    }
}

} // verus!
