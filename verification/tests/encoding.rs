use parquet2::deserialize::{HybridRleDecoderIter, HybridRleIter};
use parquet2::encoding::hybrid_rle::Decoder;
use parquet2::schema::types::{PhysicalType, PrimitiveType};
use parquet_write::column_chunk_to_pages;
use parquet_write::encoder::{slice_to_page_data, slice_to_page_data_f32};
use parquet_write::levels::{encode_validity, push_uleb128};
use parquet_write::nullable::F32Bits;
use parquet_write::pages::SchemaMismatchError;

fn uleb(v: u64) -> Vec<u8> {
    let mut out = Vec::new();
    push_uleb128(&mut out, v);
    out
}

#[test]
fn uleb128_exact_bytes() {
    assert_eq!(uleb(0), vec![0x00]);
    assert_eq!(uleb(1), vec![0x01]);
    assert_eq!(uleb(127), vec![0x7f]);
    assert_eq!(uleb(128), vec![0x80, 0x01]);
    assert_eq!(uleb(300), vec![0xac, 0x02]);
    assert_eq!(uleb(u64::MAX), vec![0xff; 9].into_iter().chain([0x01]).collect::<Vec<u8>>());
}

#[test]
fn validity_stream_groups() {
    assert_eq!(encode_validity(&vec![]), Vec::<u8>::new());
    // A uniform stream is one run: header 3 << 1, value byte 1.
    assert_eq!(encode_validity(&vec![true, true, true]), vec![6, 1]);
    assert_eq!(encode_validity(&vec![false]), vec![2, 0]);
    // A mixed stream is one bit-packed group: header 1 << 1 | 1, then
    // the bits least-significant first.
    assert_eq!(
        encode_validity(&vec![true, true, false, true]),
        vec![3, 0b1011]
    );
    // Nine mixed bits need two packed bytes.
    assert_eq!(
        encode_validity(&vec![false, true, true, true, true, true, true, true, true]),
        vec![5, 0b1111_1110, 0b0000_0001]
    );
}

fn decode_validity(bytes: &[u8], rows: usize) -> Vec<bool> {
    HybridRleDecoderIter::new(HybridRleIter::new(Decoder::new(bytes, 1), rows))
        .map(|r| r.expect("level"))
        .collect()
}

#[test]
fn page_payload_holds_levels_then_values() {
    // The concrete scenario column: budget-sized to one page.
    let data = slice_to_page_data(&[1, 2, i32::MIN, 3]);
    assert_eq!(data.row_count, 4);
    assert_eq!(data.value_count, 4);
    assert_eq!(data.statistics.null_count, 1);
    assert_eq!(data.statistics.min_max, Some((1, 3)));

    let levels = vec![3u8, 0b1011];
    let mut expected = vec![2u8, 0, 0, 0];
    expected.extend_from_slice(&levels);
    for v in [1i32, 2, 3] {
        expected.extend_from_slice(&v.to_le_bytes());
    }
    assert_eq!(data.buffer, expected);
    assert_eq!(data.definition_levels_byte_length, 4 + levels.len());

    // Round trip of the payload: validity bits plus retained values give
    // back the column with the sentinel mapped to an absent row.
    let def = &data.buffer[4..data.definition_levels_byte_length];
    let validity = decode_validity(def, data.row_count);
    assert_eq!(validity, vec![true, true, false, true]);
    let mut values = data.buffer[data.definition_levels_byte_length..]
        .chunks(4)
        .map(|c| i32::from_le_bytes([c[0], c[1], c[2], c[3]]));
    let decoded: Vec<Option<i32>> = validity
        .iter()
        .map(|present| if *present { values.next() } else { None })
        .collect();
    assert_eq!(decoded, vec![Some(1), Some(2), None, Some(3)]);
}

#[test]
fn float_page_payload_round_trips() {
    let column = [0.5f32, 0.001, f32::NAN, 3.14];
    let chunk: Vec<F32Bits> = column.iter().map(|v| F32Bits { bits: v.to_bits() }).collect();
    let data = slice_to_page_data_f32(&chunk);
    assert_eq!(data.statistics.null_count, 1);
    let (min, max) = data.statistics.min_max.unwrap();
    assert_eq!(f32::from_bits(min.bits), 0.001);
    assert_eq!(f32::from_bits(max.bits), 3.14);

    let def = &data.buffer[4..data.definition_levels_byte_length];
    let validity = decode_validity(def, data.row_count);
    let mut values = data.buffer[data.definition_levels_byte_length..]
        .chunks(4)
        .map(|c| f32::from_bits(u32::from_le_bytes([c[0], c[1], c[2], c[3]])));
    let decoded: Vec<Option<f32>> = validity
        .iter()
        .map(|present| if *present { values.next() } else { None })
        .collect();
    assert_eq!(decoded, vec![Some(0.5), Some(0.001), None, Some(3.14)]);
}

fn int32_type() -> PrimitiveType {
    PrimitiveType::from_physical("col".to_string(), PhysicalType::Int32)
}

#[test]
fn page_counts_follow_the_chunker() {
    let empty: [i32; 0] = [];
    let pages = column_chunk_to_pages(int32_type(), &empty, Some(1024), parquet2::encoding::Encoding::Plain)
        .expect("schema");
    assert_eq!(pages.len(), 0);

    let one = [42i32];
    let pages = column_chunk_to_pages(int32_type(), &one, Some(1), parquet2::encoding::Encoding::Plain)
        .expect("schema");
    assert_eq!(pages.len(), 1);

    // A starved budget still makes one page per row.
    let six = [1i32, 2, 3, 4, 5, 6];
    let pages = column_chunk_to_pages(int32_type(), &six, Some(3), parquet2::encoding::Encoding::Plain)
        .expect("schema");
    assert_eq!(pages.len(), 6);
}

#[test]
fn v2_page_carries_bare_levels() {
    let column = [1i32, 2, i32::MIN, 3];
    let data = parquet_write::encoder::slice_to_page_data_v2(&column);
    let levels = vec![3u8, 0b1011];
    let mut expected = levels.clone();
    for v in [1i32, 2, 3] {
        expected.extend_from_slice(&v.to_le_bytes());
    }
    assert_eq!(data.buffer, expected);
    assert_eq!(data.definition_levels_byte_length, levels.len());
    assert_eq!(data.statistics.null_count, 1);
    assert_eq!(data.statistics.min_max, Some((1, 3)));

    let page = parquet_write::slice_to_page_v2(int32_type(), &column);
    match page {
        parquet2::page::Page::Data(dp) => {
            assert_eq!(dp.num_values(), 4);
            assert_eq!(dp.buffer(), expected.as_slice());
        }
        _ => panic!("expected a data page"),
    }
}

#[test]
fn mismatched_physical_type_is_refused() {
    let double = PrimitiveType::from_physical("col".to_string(), PhysicalType::Double);
    let column = [1i32, 2, 3];
    let result = column_chunk_to_pages(double, &column, Some(1024), parquet2::encoding::Encoding::Plain);
    assert_eq!(result.unwrap_err(), SchemaMismatchError);
}
