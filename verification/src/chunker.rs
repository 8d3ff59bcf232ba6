//! Size-bounded chunking of a column into page-sized row ranges.
//!
//! A column of `n` rows is tiled left to right by ranges of at most
//! `rows_per_page` rows, where `rows_per_page` is estimated from a byte
//! budget: one `value_width`-byte value plus one byte of validity overhead
//! per row, floored to one row so that even a pathologically small budget
//! makes progress.

use vstd::prelude::*;

use crate::RowRange;

verus! {

/// Hard ceiling on the page byte budget, to stay within the format's
/// limits on page size.
pub const MAX_PAGE_BYTES: usize = 0x7e00_0000;

/// Byte budget used when the caller gives none.
pub const DEFAULT_PAGE_BYTES: usize = 10;

/// The requested byte budget, defaulted and clamped to [`MAX_PAGE_BYTES`].
pub open spec fn spec_max_page_bytes(data_pagesize_limit: Option<usize>) -> int {
    let requested = match data_pagesize_limit {
        Option::Some(limit) => limit as int,
        Option::None => DEFAULT_PAGE_BYTES as int,
    };
    if requested <= MAX_PAGE_BYTES as int {
        requested
    } else {
        MAX_PAGE_BYTES as int
    }
}

/// Rows that fit the budget at `value_width` bytes per value plus one byte
/// of validity overhead, floored to one row.
pub open spec fn spec_rows_per_page(data_pagesize_limit: Option<usize>, value_width: usize) -> int {
    let fitting = spec_max_page_bytes(data_pagesize_limit) / (value_width as int + 1);
    if fitting >= 1 {
        fitting
    } else {
        1
    }
}

/// The ranges that tile `[offset, n)` in steps of `rows_per_page`, the
/// final range truncated to the remaining row count.
pub open spec fn spec_ranges_from(offset: int, n: int, rows_per_page: int) -> Seq<RowRange>
    decreases n - offset,
        when 1 <= rows_per_page
{
    if offset < 0 || offset >= n {
        Seq::empty()
    } else if n - offset <= rows_per_page {
        seq![RowRange { offset: offset as usize, length: (n - offset) as usize }]
    } else {
        seq![RowRange { offset: offset as usize, length: rows_per_page as usize }]
            + spec_ranges_from(offset + rows_per_page, n, rows_per_page)
    }
}

/// The full tiling of a column of `n` rows.
pub open spec fn spec_ranges(n: int, rows_per_page: int) -> Seq<RowRange> {
    spec_ranges_from(0, n, rows_per_page)
}

/// What it means for `ranges` to partition `[0, n)` exactly: every range
/// is non-empty, consecutive ranges are contiguous, the first starts at 0,
/// the last ends at `n`, and an empty tiling happens only for `n == 0`.
pub open spec fn ranges_partition(ranges: Seq<RowRange>, n: int) -> bool {
    &&& forall|i: int| 0 <= i < ranges.len() ==> 1 <= (#[trigger] ranges[i]).length
    &&& forall|i: int| 0 <= i < ranges.len() ==> (#[trigger] ranges[i]).offset + ranges[i].length <= n
    &&& forall|i: int|
        0 <= i < ranges.len() - 1 ==> (#[trigger] ranges[i]).offset + ranges[i].length == ranges[
            i + 1
        ].offset
    &&& (ranges.len() == 0 ==> n == 0)
    &&& (ranges.len() > 0 ==> ranges[0].offset == 0 && ranges[ranges.len() - 1].offset + ranges[
        ranges.len() - 1
    ].length == n)
}

/// Sum of the lengths of a sequence of ranges.
pub open spec fn total_length(ranges: Seq<RowRange>) -> int
    decreases ranges.len(),
{
    if ranges.len() == 0 {
        0
    } else {
        ranges[0].length + total_length(ranges.skip(1))
    }
}

proof fn lemma_ranges_from_properties(offset: int, n: int, rows_per_page: int)
    requires
        1 <= rows_per_page,
        0 <= offset <= n,
        n <= usize::MAX,
    ensures
        ({
            let r = spec_ranges_from(offset, n, rows_per_page);
            &&& (r.len() == 0 <==> offset == n)
            &&& (r.len() > 0 ==> r[0].offset == offset && r[r.len() - 1].offset + r[r.len()
                - 1].length == n)
            &&& forall|i: int| 0 <= i < r.len() ==> 1 <= (#[trigger] r[i]).length <= rows_per_page
            &&& forall|i: int| 0 <= i < r.len() ==> (#[trigger] r[i]).offset + r[i].length <= n
            &&& forall|i: int|
                0 <= i < r.len() - 1 ==> (#[trigger] r[i]).offset + r[i].length == r[i + 1].offset
            &&& total_length(r) == n - offset
        }),
    decreases n - offset,
{
    let r = spec_ranges_from(offset, n, rows_per_page);
    assert(total_length(Seq::<RowRange>::empty()) == 0);
    if offset >= n {
        assert(r =~= Seq::<RowRange>::empty());
    } else if n - offset <= rows_per_page {
        assert(r.skip(1) =~= Seq::<RowRange>::empty());
        assert(total_length(r) == r[0].length + total_length(r.skip(1)));
    } else {
        let rest = spec_ranges_from(offset + rows_per_page, n, rows_per_page);
        lemma_ranges_from_properties(offset + rows_per_page, n, rows_per_page);
        assert(r.skip(1) =~= rest);
        assert forall|i: int| 1 <= i < r.len() implies #[trigger] r[i] == rest[i - 1] by {}
        assert(r[r.len() - 1] == rest[rest.len() - 1]);
        assert forall|i: int| 0 <= i < r.len() - 1 implies (#[trigger] r[i]).offset + r[i].length
            == r[i + 1].offset by {
            if i > 0 {
                assert(r[i] == rest[i - 1]);
                assert(r[i + 1] == rest[i]);
            }
        }
    }
}

/// The chunker's tiling is an exact partition of the column's rows:
/// ranges are non-empty, contiguous, in order, start at row 0, end at row
/// `n`, never exceed `rows_per_page` rows, and their lengths sum to `n`.
pub proof fn lemma_ranges_partition(n: int, rows_per_page: int)
    requires
        1 <= rows_per_page,
        0 <= n <= usize::MAX,
    ensures
        ranges_partition(spec_ranges(n, rows_per_page), n),
        total_length(spec_ranges(n, rows_per_page)) == n,
        forall|i: int|
            0 <= i < spec_ranges(n, rows_per_page).len() ==> (#[trigger] spec_ranges(
                n,
                rows_per_page,
            )[i]).length <= rows_per_page,
{
    lemma_ranges_from_properties(0, n, rows_per_page);
}

/// A column of one row is tiled by exactly one range, whatever the budget;
/// and with a budget worth a single row the tiling has one range per row.
pub proof fn lemma_ranges_boundaries(n: int, rows_per_page: int)
    requires
        1 <= rows_per_page,
        0 <= n <= usize::MAX,
    ensures
        n == 0 ==> spec_ranges(n, rows_per_page).len() == 0,
        n == 1 ==> spec_ranges(n, rows_per_page) =~= seq![RowRange { offset: 0, length: 1 }],
        rows_per_page == 1 ==> spec_ranges(n, rows_per_page).len() == n,
{
    if rows_per_page == 1 {
        lemma_ranges_from_unit(0, n);
    }
}

proof fn lemma_ranges_from_unit(offset: int, n: int)
    requires
        0 <= offset <= n,
    ensures
        spec_ranges_from(offset, n, 1).len() == n - offset,
    decreases n - offset,
{
    if offset < n && n - offset > 1 {
        lemma_ranges_from_unit(offset + 1, n);
    }
}

/// Effective byte budget: the caller's request, defaulted and clamped.
pub fn max_page_bytes(data_pagesize_limit: Option<usize>) -> (r: usize)
    ensures
        r == spec_max_page_bytes(data_pagesize_limit),
{
    let requested = match data_pagesize_limit {
        Option::Some(limit) => limit,
        Option::None => DEFAULT_PAGE_BYTES,
    };
    if requested <= MAX_PAGE_BYTES {
        requested
    } else {
        MAX_PAGE_BYTES
    }
}

/// Rows per page for the given budget and value width, always at least 1
/// and never more than [`MAX_PAGE_BYTES`].
pub fn rows_per_page(data_pagesize_limit: Option<usize>, value_width: usize) -> (r: usize)
    requires
        value_width < usize::MAX,
    ensures
        r == spec_rows_per_page(data_pagesize_limit, value_width),
        1 <= r <= MAX_PAGE_BYTES,
{
    let fitting = max_page_bytes(data_pagesize_limit) / (value_width + 1);
    if fitting >= 1 {
        fitting
    } else {
        1
    }
}

/// Tile a column of `number_of_rows` rows into ranges whose encoded size
/// fits the byte budget, estimating one `value_width`-byte value plus one
/// validity byte per row.
pub fn chunk_ranges(
    number_of_rows: usize,
    data_pagesize_limit: Option<usize>,
    value_width: usize,
) -> (r: Vec<RowRange>)
    requires
        value_width < usize::MAX,
    ensures
        r@ == spec_ranges(
            number_of_rows as int,
            spec_rows_per_page(data_pagesize_limit, value_width),
        ),
{
    let rows_per_page = rows_per_page(data_pagesize_limit, value_width);
    let mut out: Vec<RowRange> = Vec::new();
    let mut offset: usize = 0;
    while offset < number_of_rows
        invariant
            1 <= rows_per_page == spec_rows_per_page(data_pagesize_limit, value_width),
            0 <= offset <= number_of_rows,
            spec_ranges(number_of_rows as int, rows_per_page as int) =~= out@ + spec_ranges_from(
                offset as int,
                number_of_rows as int,
                rows_per_page as int,
            ),
        decreases number_of_rows - offset,
    {
        let remaining = number_of_rows - offset;
        let length = if remaining <= rows_per_page {
            remaining
        } else {
            rows_per_page
        };
        out.push(RowRange { offset, length });
        offset = offset + length;
    }
    proof {
        assert(spec_ranges_from(
            offset as int,
            number_of_rows as int,
            rows_per_page as int,
        ) =~= Seq::<RowRange>::empty());
        assert(out@ + Seq::<RowRange>::empty() =~= out@);
    }
    out
}

} // verus!
