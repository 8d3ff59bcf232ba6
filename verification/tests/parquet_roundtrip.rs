use std::io::Cursor;

use parquet2::compression::CompressionOptions;
use parquet2::deserialize::{
    native_cast, HybridEncoded, HybridRleDecoderIter, HybridRleIter, OptionalValues,
};
use parquet2::encoding::hybrid_rle::Decoder;
use parquet2::encoding::{hybrid_rle, uleb128, Encoding};
use parquet2::metadata::SchemaDescriptor;
use parquet2::page::split_buffer;
use parquet2::read::{read_metadata, BasicDecompressor, ColumnIterator, MutStreamingIterator, State};
use parquet2::schema::types::{ParquetType, PhysicalType};
use parquet2::schema::Repetition;
use parquet2::write::{
    Compressor, DynIter, DynStreamingIterator, FileWriter, Version, WriteOptions,
};
use parquet2::FallibleStreamingIterator;
use parquet_write::column_chunk_to_pages;
use parquet_write::levels::{encode_validity, push_uleb128};

#[test]
fn encode_column_tops() {
    let def_level_count: usize = 113_000_000;
    let mut buffer = vec![];
    let mut bb = [0u8; 10];
    let len = uleb128::encode((def_level_count << 1) as u64, &mut bb);
    buffer.extend_from_slice(&bb[..len]);
    buffer.extend_from_slice(&[1u8]);

    let iter = hybrid_rle::Decoder::new(buffer.as_slice(), 1);
    let iter = HybridRleIter::new(iter, def_level_count);
    for el in iter {
        assert!(el.is_ok());
        let he = el.unwrap();
        match he {
            HybridEncoded::Repeated(val, len) => {
                assert_eq!(val, true);
                assert_eq!(len, def_level_count);
            }
            _ => assert!(false),
        }
    }
}

#[test]
fn library_validity_stream_matches_single_run() {
    // An all-true validity column of 113,000,000 rows compresses to one
    // run: the ULEB128 header of twice the length, then the value byte.
    let def_level_count: usize = 113_000_000;
    let bits = vec![true; def_level_count];
    let buffer = encode_validity(&bits);

    let mut expected = vec![];
    push_uleb128(&mut expected, (def_level_count as u64) * 2);
    expected.push(1u8);
    assert_eq!(buffer, expected);

    let iter = hybrid_rle::Decoder::new(buffer.as_slice(), 1);
    let iter = HybridRleIter::new(iter, def_level_count);
    for el in iter {
        let he = el.expect("run");
        match he {
            HybridEncoded::Repeated(val, len) => {
                assert_eq!(val, true);
                assert_eq!(len, def_level_count);
            }
            _ => assert!(false),
        }
    }
}

#[test]
fn write_i32_column() {
    let page1 = vec![0, 1, i32::MIN, 3, 4, 5, 6];
    let expected1 = vec![Some(0), Some(1), None, Some(3), Some(4), Some(5), Some(6)];

    let options = WriteOptions {
        write_statistics: true,
        version: Version::V1,
    };

    let schema = SchemaDescriptor::new(
        "schema".to_string(),
        vec![ParquetType::from_physical(
            "col_i32".to_string(),
            PhysicalType::Int32,
        )],
    );

    let pages = column_chunk_to_pages(
        schema.columns()[0].descriptor.primitive_type.clone(),
        &page1,
        Some(1024),
        Encoding::Plain,
    )
    .expect("schema match");

    let pages = DynStreamingIterator::new(Compressor::new(
        pages.into_iter().map(Ok),
        CompressionOptions::Uncompressed,
        vec![],
    ));

    let columns = std::iter::once(Ok(pages));

    let writer = Cursor::new(vec![]);
    let mut writer = FileWriter::new(writer, schema, options, None);

    writer.write(DynIter::new(columns)).expect("write");
    writer.end(None).expect("end");
    let data = writer.into_inner().into_inner();
    let mut reader = Cursor::new(data);

    let metadata = read_metadata(&mut reader).expect("meta");

    let mut iter = ColumnIterator::new(
        reader,
        metadata.row_groups[0].columns().to_vec(),
        None,
        vec![],
        usize::MAX, // we trust the file is correct
    );

    loop {
        match iter.advance().expect("advance") {
            State::Some(mut new_iter) => {
                if let Some((pages, _descriptor)) = new_iter.get() {
                    let mut iterator = BasicDecompressor::new(pages, vec![]);
                    while let Some(page) = iterator.next().unwrap() {
                        match page {
                            parquet2::page::Page::Data(page) => {
                                let is_optional = page.descriptor.primitive_type.field_info.repetition
                                    == Repetition::Optional;
                                match (page.encoding(), is_optional) {
                                    (Encoding::Plain, true) => {
                                        let (_, def_levels, _) = split_buffer(page).expect("split");
                                        let validity = HybridRleDecoderIter::new(HybridRleIter::new(
                                            Decoder::new(def_levels, 1),
                                            page.num_values(),
                                        ));
                                        let values = native_cast(page).expect("cast");
                                        let values: Result<
                                            Vec<Option<i32>>,
                                            parquet2::error::Error,
                                        > = OptionalValues::new(validity, values).collect();
                                        if let Ok(v) = values {
                                            assert_eq!(v, expected1);
                                        }
                                    }
                                    _ => {}
                                }
                            }
                            _ => {}
                        }
                    }
                    let _internal_buffer = iterator.into_inner();
                }
                iter = new_iter;
            }
            State::Finished(_buffer) => {
                assert!(_buffer.is_empty()); // data is uncompressed => buffer is always moved
                break;
            }
        }
    }
}

#[test]
fn write_i32_column_v2() {
    let column = vec![10, i32::MIN, 30, 40];
    let expected: Vec<Option<i32>> = vec![Some(10), None, Some(30), Some(40)];

    let options = WriteOptions {
        write_statistics: true,
        version: Version::V2,
    };

    let schema = SchemaDescriptor::new(
        "schema".to_string(),
        vec![ParquetType::from_physical(
            "col_i32".to_string(),
            PhysicalType::Int32,
        )],
    );

    let page = parquet_write::slice_to_page_v2(
        schema.columns()[0].descriptor.primitive_type.clone(),
        &column,
    );

    let pages = DynStreamingIterator::new(Compressor::new(
        std::iter::once(Ok(page)),
        CompressionOptions::Uncompressed,
        vec![],
    ));

    let columns = std::iter::once(Ok(pages));

    let writer = Cursor::new(vec![]);
    let mut writer = FileWriter::new(writer, schema, options, None);

    writer.write(DynIter::new(columns)).expect("write");
    writer.end(None).expect("end");
    let data = writer.into_inner().into_inner();
    let mut reader = Cursor::new(data);

    let metadata = read_metadata(&mut reader).expect("meta");

    let mut iter = ColumnIterator::new(
        reader,
        metadata.row_groups[0].columns().to_vec(),
        None,
        vec![],
        usize::MAX,
    );

    let mut decoded: Vec<Option<i32>> = vec![];
    loop {
        match iter.advance().expect("advance") {
            State::Some(mut new_iter) => {
                if let Some((pages, _descriptor)) = new_iter.get() {
                    let mut iterator = BasicDecompressor::new(pages, vec![]);
                    while let Some(page) = iterator.next().unwrap() {
                        if let parquet2::page::Page::Data(page) = page {
                            let (_, def_levels, _) = split_buffer(page).expect("split");
                            let validity = HybridRleDecoderIter::new(HybridRleIter::new(
                                Decoder::new(def_levels, 1),
                                page.num_values(),
                            ));
                            let values = native_cast(page).expect("cast");
                            decoded = OptionalValues::new(validity, values)
                                .collect::<Result<_, _>>()
                                .expect("values");
                        }
                    }
                }
                iter = new_iter;
            }
            State::Finished(_) => break,
        }
    }
    assert_eq!(decoded, expected);
}
