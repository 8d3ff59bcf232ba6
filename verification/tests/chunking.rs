use parquet_write::chunker::{chunk_ranges, max_page_bytes, rows_per_page};
use parquet_write::RowRange;

fn assert_partition(ranges: &[RowRange], n: usize) {
    if n == 0 {
        assert!(ranges.is_empty());
        return;
    }
    assert!(!ranges.is_empty());
    assert_eq!(ranges[0].offset, 0);
    for w in ranges.windows(2) {
        assert_eq!(w[0].offset + w[0].length, w[1].offset);
    }
    for r in ranges {
        assert!(r.length >= 1);
    }
    let last = ranges[ranges.len() - 1];
    assert_eq!(last.offset + last.length, n);
    let total: usize = ranges.iter().map(|r| r.length).sum();
    assert_eq!(total, n);
}

#[test]
fn ranges_tile_the_column_exactly() {
    // 25-byte budget at 4-byte values: 25 / (4 + 1) = 5 rows per page.
    let ranges = chunk_ranges(10, Some(25), 4);
    assert_eq!(
        ranges,
        vec![
            RowRange { offset: 0, length: 5 },
            RowRange { offset: 5, length: 5 },
        ]
    );
    assert_partition(&ranges, 10);

    // A remainder shorter than a full page ends the tiling.
    let ranges = chunk_ranges(12, Some(25), 4);
    assert_eq!(ranges.len(), 3);
    assert_eq!(ranges[2], RowRange { offset: 10, length: 2 });
    assert_partition(&ranges, 12);

    for n in [1usize, 2, 7, 99, 100, 101] {
        for budget in [None, Some(0), Some(3), Some(10), Some(1024), Some(usize::MAX)] {
            let ranges = chunk_ranges(n, budget, 4);
            assert_partition(&ranges, n);
        }
    }
}

#[test]
fn empty_column_yields_no_ranges() {
    for budget in [None, Some(0), Some(1024)] {
        assert!(chunk_ranges(0, budget, 4).is_empty());
    }
}

#[test]
fn single_row_yields_one_range_whatever_the_budget() {
    for budget in [None, Some(0), Some(1), Some(4), Some(1024), Some(usize::MAX)] {
        let ranges = chunk_ranges(1, budget, 4);
        assert_eq!(ranges, vec![RowRange { offset: 0, length: 1 }]);
    }
}

#[test]
fn starved_budget_still_advances_one_row_per_page() {
    // A budget below one row's cost (4 value bytes + 1 validity byte)
    // floors to one row per page: n pages, never a zero-length range.
    let ranges = chunk_ranges(6, Some(3), 4);
    assert_eq!(ranges.len(), 6);
    for (i, r) in ranges.iter().enumerate() {
        assert_eq!(*r, RowRange { offset: i, length: 1 });
    }
}

#[test]
fn budget_is_defaulted_and_clamped() {
    // No budget: the 10-byte default fits two 4-byte rows per page.
    assert_eq!(rows_per_page(None, 4), 2);
    assert_eq!(max_page_bytes(None), 10);
    // An oversized request clamps to the format ceiling 2^31 - 2^25.
    assert_eq!(max_page_bytes(Some(usize::MAX)), 0x7e00_0000);
    assert_eq!(rows_per_page(Some(usize::MAX), 4), 0x7e00_0000 / 5);
    // In-range requests pass through.
    assert_eq!(max_page_bytes(Some(1024)), 1024);
    assert_eq!(rows_per_page(Some(1024), 4), 204);
}
