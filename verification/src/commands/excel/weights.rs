//! Sharing the weight of a merged region among its rows, in proportion to
//! each row's quantity.
//!
//! The totals and quantities that go into a division are the amounts of the
//! sheet's cells, counted in whole millionths; the shares that come out of
//! it are counted in whole hundredths. The division itself is exact and
//! only its result is rounded, so the shares are exact for every sheet
//! whose numbers have no more than six decimals.

use crate::commands::excel::reader::ExcelSheet;
use crate::commands::excel::worksheet::{cell_key, key_of};
use crate::models::excel::MergedRange;
use std::collections::HashMap;
use vstd::prelude::*;

verus! {

broadcast use vstd::std_specs::hash::group_hash_axioms;

/// The size of `x`, sign aside.
pub open spec fn size_of(x: int) -> nat {
    if x < 0 {
        (-x) as nat
    } else {
        x as nat
    }
}

/// The whole number nearest to `n / d`, a half going up.
pub open spec fn nearest(n: nat, d: nat) -> nat
    recommends
        d > 0,
{
    if 2 * (n % d) >= d {
        n / d + 1
    } else {
        n / d
    }
}

/// The whole number nearest to `n / d`, a half going away from zero.
pub open spec fn rounded_quotient(n: int, d: int) -> int
    recommends
        d != 0,
{
    if (n < 0) != (d < 0) {
        -(nearest(size_of(n), size_of(d)) as int)
    } else {
        nearest(size_of(n), size_of(d)) as int
    }
}

/// `v`, or the nearest number that 64 bits can hold.
pub open spec fn clamped(v: int) -> i64 {
    if v > i64::MAX {
        i64::MAX
    } else if v < i64::MIN {
        i64::MIN
    } else {
        v as i64
    }
}

/// How many millionths make a hundredth.
pub open spec fn per_hundredth() -> int {
    10_000
}

/// The share of `total` that falls to a row with `quantity` out of `sum`,
/// the three in millionths and the share in hundredths: `total` times
/// `quantity` over `sum`, rounded to the nearest hundredth, a half going
/// away from zero; nothing where the quantities sum to zero.
pub open spec fn share(total: int, quantity: int, sum: int) -> int {
    if sum == 0 {
        0
    } else {
        rounded_quotient(total * quantity, sum * per_hundredth())
    }
}

/// Rounding moves a quotient by at most half a unit.
pub proof fn lemma_rounding_error(n: int, d: int)
    requires
        d != 0,
    ensures
        size_of(2 * (rounded_quotient(n, d) * d - n)) <= size_of(d),
{
    let na = size_of(n) as int;
    let da = size_of(d) as int;
    let m = nearest(size_of(n), size_of(d)) as int;
    let q = na / da;
    let r = na % da;
    assert(na == da * q + r && 0 <= r < da) by (nonlinear_arith)
        requires
            da > 0,
            na >= 0,
            q == na / da,
            r == na % da,
    ;
    assert(-da <= 2 * (m * da - na) <= da) by (nonlinear_arith)
        requires
            na == da * q + r,
            0 <= r < da,
            m == (if 2 * r >= da {
                q + 1
            } else {
                q
            }),
    ;
    assert(rounded_quotient(n, d) * d - n == m * da - na || rounded_quotient(n, d) * d - n == -(m
        * da - na)) by (nonlinear_arith)
        requires
            na == (if n < 0 {
                -n
            } else {
                n
            }),
            da == (if d < 0 {
                -d
            } else {
                d
            }),
            rounded_quotient(n, d) == (if (n < 0) != (d < 0) {
                -m
            } else {
                m
            }),
    ;
}

impl ExcelSheet {
    /// The amount at `(row, col)` in millionths, zero where there is none.
    pub open spec fn amount_or_zero(&self, row: u32, col: u32) -> int {
        match self.amount_at(row, col) {
            Some(a) => a as int,
            None => 0,
        }
    }

    /// The sum of the amounts of column `col` over the `count` rows from `from` on.
    pub open spec fn column_sum(&self, col: u32, from: u32, count: nat) -> int
        decreases count,
    {
        if count == 0 {
            0
        } else {
            self.column_sum(col, from, (count - 1) as nat) + self.amount_or_zero(
                (from + count - 1) as u32,
                col,
            )
        }
    }
}

/// How many rows a region has.
pub open spec fn row_span(range: MergedRange) -> nat {
    if range.start_row <= range.end_row {
        (range.end_row - range.start_row + 1) as nat
    } else {
        0
    }
}

/// The weight that a region shares out: the amount at its first row in
/// the weight column.
pub open spec fn region_total(sheet: ExcelSheet, range: MergedRange, weight_col: u32) -> int {
    sheet.amount_or_zero(range.start_row, weight_col)
}

/// The quantities of a region, summed: the amounts of the column before
/// the weight column, over the region's rows.
pub open spec fn region_quantity(sheet: ExcelSheet, range: MergedRange, weight_col: u32) -> int {
    sheet.column_sum((weight_col - 1) as u32, range.start_row, row_span(range))
}

/// The share of a region's weight that falls to `row`, before it is fitted
/// into 64 bits.
pub open spec fn row_share(sheet: ExcelSheet, range: MergedRange, weight_col: u32, row: u32)
    -> int {
    share(
        region_total(sheet, range, weight_col),
        sheet.amount_or_zero(row, (weight_col - 1) as u32),
        region_quantity(sheet, range, weight_col),
    )
}

/// The weight given to `row` of a region, in hundredths.
pub open spec fn distributed_weight(
    sheet: ExcelSheet,
    range: MergedRange,
    weight_col: u32,
    row: u32,
) -> i64 {
    clamped(row_share(sheet, range, weight_col, row))
}

/// The shares of the first `count` rows of a region, summed.
pub open spec fn share_sum(sheet: ExcelSheet, range: MergedRange, weight_col: u32, count: nat)
    -> int
    decreases count,
{
    if count == 0 {
        0
    } else {
        share_sum(sheet, range, weight_col, (count - 1) as nat) + row_share(
            sheet,
            range,
            weight_col,
            (range.start_row + count - 1) as u32,
        )
    }
}

/// After `count` rows, the shares handed out differ from those rows' exact
/// part of the total by at most half a hundredth a row.
proof fn lemma_share_sum_error(sheet: ExcelSheet, range: MergedRange, weight_col: u32, count: nat)
    requires
        region_quantity(sheet, range, weight_col) != 0,
        weight_col >= 1,
    ensures
        size_of(
            2 * (share_sum(sheet, range, weight_col, count) * (region_quantity(
                sheet,
                range,
                weight_col,
            ) * per_hundredth()) - region_total(sheet, range, weight_col) * sheet.column_sum(
                (weight_col - 1) as u32,
                range.start_row,
                count,
            )),
        ) <= count * size_of(region_quantity(sheet, range, weight_col) * per_hundredth()),
    decreases count,
{
    let total = region_total(sheet, range, weight_col);
    let sum = region_quantity(sheet, range, weight_col) * per_hundredth();
    if count > 0 {
        let before = (count - 1) as nat;
        lemma_share_sum_error(sheet, range, weight_col, before);
        let row = (range.start_row + count - 1) as u32;
        let q = sheet.amount_or_zero(row, (weight_col - 1) as u32);
        let s = row_share(sheet, range, weight_col, row);
        lemma_rounding_error(total * q, sum);
        let sb = share_sum(sheet, range, weight_col, before);
        let cb = sheet.column_sum((weight_col - 1) as u32, range.start_row, before);
        let e1 = 2 * (sb * sum - total * cb);
        let e2 = 2 * (s * sum - total * q);
        assert(2 * ((sb + s) * sum - total * (cb + q)) == e1 + e2) by (nonlinear_arith)
            requires
                e1 == 2 * (sb * sum - total * cb),
                e2 == 2 * (s * sum - total * q),
        ;
        assert(size_of(e1 + e2) <= size_of(e1) + size_of(e2));
        assert(before * size_of(sum) + size_of(sum) == count * size_of(sum)) by (nonlinear_arith)
            requires
                before + 1 == count,
        ;
    } else {
        assert(0 * size_of(sum) == 0) by (nonlinear_arith);
    }
}

/// The weights of a region add up to its total, give or take half a
/// hundredth for each row, whenever its quantities do not sum to zero. The
/// weights are hundredths and the total is in millionths, so the two are
/// compared in millionths.
pub proof fn lemma_weights_add_up(sheet: ExcelSheet, range: MergedRange, weight_col: u32)
    requires
        weight_col >= 1,
        region_quantity(sheet, range, weight_col) != 0,
    ensures
        2 * size_of(
            share_sum(sheet, range, weight_col, row_span(range)) * per_hundredth() - region_total(
                sheet,
                range,
                weight_col,
            ),
        ) <= row_span(range) * per_hundredth(),
{
    let total = region_total(sheet, range, weight_col);
    let sum = region_quantity(sheet, range, weight_col);
    let shares = share_sum(sheet, range, weight_col, row_span(range));
    let rows = row_span(range) as int;
    lemma_share_sum_error(sheet, range, weight_col, row_span(range));
    let x = shares * per_hundredth() - total;
    assert(2 * (shares * (sum * per_hundredth()) - total * sum) == 2 * x * sum) by (nonlinear_arith)
        requires
            x == shares * per_hundredth() - total,
    ;
    assert(size_of(2 * x * sum) == 2 * size_of(x) * size_of(sum)) by (nonlinear_arith);
    assert(size_of(sum * per_hundredth()) == size_of(sum) * per_hundredth()) by (nonlinear_arith);
    assert(2 * size_of(x) <= rows * per_hundredth()) by (nonlinear_arith)
        requires
            2 * size_of(x) * size_of(sum) <= rows * (size_of(sum) * per_hundredth()),
            size_of(sum) >= 1,
    ;
}

/// Where the quantities of a region sum to zero, every row's weight is zero.
pub proof fn lemma_no_quantity_no_weight(
    sheet: ExcelSheet,
    range: MergedRange,
    weight_col: u32,
    row: u32,
)
    requires
        region_quantity(sheet, range, weight_col) == 0,
    ensures
        distributed_weight(sheet, range, weight_col, row) == 0,
{
}

/// Shares `total` out to a row with `quantity` out of `sum`, the three in
/// millionths: the share in hundredths, rounded to the nearest and fitted
/// into 64 bits.
pub fn round_share(total: i64, quantity: i64, sum: i128) -> (weight: i64)
    requires
        sum != 0,
        -0x1_0000_0000_0000_0000_0000_0000 <= sum <= 0x1_0000_0000_0000_0000_0000_0000,
    ensures
        weight == clamped(share(total as int, quantity as int, sum as int)),
{
    assert(-0x4000_0000_0000_0000_0000_0000_0000_0000 <= (total as int) * (quantity as int)
        <= 0x4000_0000_0000_0000_0000_0000_0000_0000) by (nonlinear_arith)
        requires
            -0x8000_0000_0000_0000 <= total as int <= 0x8000_0000_0000_0000,
            -0x8000_0000_0000_0000 <= quantity as int <= 0x8000_0000_0000_0000,
    ;
    let n: i128 = (total as i128) * (quantity as i128);
    let na: i128 = if n < 0 {
        -n
    } else {
        n
    };
    let d: i128 = sum * 10_000;
    let da: i128 = if d < 0 {
        -d
    } else {
        d
    };
    let q: i128 = na / da;
    let r: i128 = na % da;
    assert(0 <= q <= na && 0 <= r < da) by (nonlinear_arith)
        requires
            na >= 0,
            da > 0,
            q == na / da,
            r == na % da,
    ;
    let m: i128 = if 2 * r >= da {
        q + 1
    } else {
        q
    };
    assert(m == nearest(size_of(n as int), size_of(d as int)));
    let v: i128 = if (n < 0) != (d < 0) {
        -m
    } else {
        m
    };
    if v > 0x7fff_ffff_ffff_ffff {
        0x7fff_ffff_ffff_ffff
    } else if v < -0x8000_0000_0000_0000 {
        -0x8000_0000_0000_0000
    } else {
        v as i64
    }
}

/// The weight of a row that shares with no other: its own amount, rounded
/// to the nearest hundredth.
pub open spec fn lone_weight(amount: int) -> i64 {
    clamped(share(amount, 1, 1))
}

/// The region `range` reaches across column `col`.
pub open spec fn spans(range: MergedRange, col: u32) -> bool {
    range.start_col <= col <= range.end_col
}

/// The key `key` files a cell of column `col` in one of the rows of `range`.
pub open spec fn in_region_column(key: u64, range: MergedRange, col: u32) -> bool {
    key % 0x1_0000_0000 == col && range.start_row <= key / 0x1_0000_0000 <= range.end_row
}

/// The weights once a region is shared out: if the region reaches across
/// the weight column, each of its rows gets its weight in that column, in
/// place of whatever the row had.
pub open spec fn with_region_weights(
    weights: Map<u64, i64>,
    sheet: ExcelSheet,
    range: MergedRange,
    weight_col: u32,
) -> Map<u64, i64> {
    if spans(range, weight_col) {
        Map::new(
            |key: u64| weights.contains_key(key) || in_region_column(key, range, weight_col),
            |key: u64|
                if in_region_column(key, range, weight_col) {
                    distributed_weight(sheet, range, weight_col, (key / 0x1_0000_0000) as u32)
                } else {
                    weights[key]
                },
        )
    } else {
        weights
    }
}

/// The weights once every region is shared out, in order.
pub open spec fn all_region_weights(sheet: ExcelSheet, ranges: Seq<MergedRange>, weight_col: u32)
    -> Map<u64, i64>
    decreases ranges.len(),
{
    if ranges.len() == 0 {
        Map::empty()
    } else {
        with_region_weights(
            all_region_weights(sheet, ranges.drop_last(), weight_col),
            sheet,
            ranges.last(),
            weight_col,
        )
    }
}

/// The region at index `at` is the last among `ranges` to reach the cell
/// `(row, col)`. Where regions do not overlap, every region is the last to
/// reach each of its cells.
pub open spec fn last_to_reach(ranges: Seq<MergedRange>, at: int, row: u32, col: u32) -> bool {
    &&& 0 <= at < ranges.len()
    &&& ranges[at].covers(row, col)
    &&& forall|later: int| at < later < ranges.len() ==> !(#[trigger] ranges[later]).covers(row, col)
}

/// The weight of a cell in the weight column is the one that the last
/// region to reach it shares out to its row.
pub proof fn lemma_last_region_decides(
    sheet: ExcelSheet,
    ranges: Seq<MergedRange>,
    weight_col: u32,
    at: int,
    row: u32,
)
    requires
        last_to_reach(ranges, at, row, weight_col),
    ensures
        all_region_weights(sheet, ranges, weight_col).contains_key(cell_key(row, weight_col)),
        all_region_weights(sheet, ranges, weight_col)[cell_key(row, weight_col)]
            == distributed_weight(sheet, ranges[at], weight_col, row),
    decreases ranges.len(),
{
    lemma_cell_key_parts(row, weight_col);
    let last = ranges.last();
    if at < ranges.len() - 1 {
        let before = ranges.drop_last();
        assert(before[at] == ranges[at]);
        assert forall|later: int| at < later < before.len() implies !(#[trigger] before[later]).covers(
            row,
            weight_col,
        ) by {
            assert(before[later] == ranges[later]);
        }
        lemma_last_region_decides(sheet, before, weight_col, at, row);
        assert(!ranges[ranges.len() - 1].covers(row, weight_col));
    }
}

/// Where the quantities of a region sum to zero, each of its rows ends up
/// with the weight zero, unless a later region reaches the same cell.
pub proof fn lemma_region_without_quantity_weighs_nothing(
    sheet: ExcelSheet,
    ranges: Seq<MergedRange>,
    weight_col: u32,
    at: int,
    row: u32,
)
    requires
        last_to_reach(ranges, at, row, weight_col),
        region_quantity(sheet, ranges[at], weight_col) == 0,
    ensures
        all_region_weights(sheet, ranges, weight_col).contains_key(cell_key(row, weight_col)),
        all_region_weights(sheet, ranges, weight_col)[cell_key(row, weight_col)] == 0,
{
    lemma_last_region_decides(sheet, ranges, weight_col, at, row);
}

/// The quantities of a region, summed.
fn sum_quantities(sheet: &ExcelSheet, range: &MergedRange, weight_col: u32) -> (sum: i128)
    requires
        weight_col >= 1,
    ensures
        sum == region_quantity(*sheet, *range, weight_col),
        -0x1_0000_0000_0000_0000_0000_0000 <= sum <= 0x1_0000_0000_0000_0000_0000_0000,
{
    let quantity_col = weight_col - 1;
    if range.start_row > range.end_row {
        return 0;
    }
    let span: u64 = (range.end_row - range.start_row) as u64 + 1;
    let mut done: u64 = 0;
    let mut sum: i128 = 0;
    while done < span
        invariant
            done <= span <= 0x1_0000_0000,
            span == row_span(*range),
            range.start_row + span <= 0x1_0000_0000,
            quantity_col == weight_col - 1,
            sum == sheet.column_sum(quantity_col, range.start_row, done as nat),
            -(done as int) * 0x8000_0000_0000_0000 <= sum <= (done as int) * 0x8000_0000_0000_0000,
        decreases span - done,
    {
        let row: u32 = (range.start_row as u64 + done) as u32;
        let quantity: i64 = match sheet.get_amount(row, quantity_col) {
            Some(q) => q,
            None => 0,
        };
        assert(quantity == sheet.amount_or_zero(row, quantity_col));
        sum = sum + (quantity as i128);
        done += 1;
    }
    sum
}

/// Where a cell's key holds its row and its column.
pub proof fn lemma_cell_key_parts(row: u32, col: u32)
    ensures
        cell_key(row, col) / 0x1_0000_0000 == row,
        cell_key(row, col) % 0x1_0000_0000 == col,
{
}

/// Shares out the weight of one region.
fn distribute_region(
    weights: &mut HashMap<u64, i64>,
    sheet: &ExcelSheet,
    range: &MergedRange,
    weight_col: u32,
)
    requires
        weight_col >= 1,
    ensures
        final(weights)@ == with_region_weights(old(weights)@, *sheet, *range, weight_col),
{
    if !(range.start_col <= weight_col && weight_col <= range.end_col) {
        return ;
    }
    let ghost before = weights@;
    if range.start_row > range.end_row {
        assert(weights@ =~= with_region_weights(before, *sheet, *range, weight_col));
        return ;
    }
    let total: i64 = match sheet.get_amount(range.start_row, weight_col) {
        Some(t) => t,
        None => 0,
    };
    let sum = sum_quantities(sheet, range, weight_col);
    let span: u64 = (range.end_row - range.start_row) as u64 + 1;
    let mut done: u64 = 0;
    assert(weights@ =~= Map::new(
        |key: u64|
            before.contains_key(key) || (in_region_column(key, *range, weight_col) && key
                / 0x1_0000_0000 < range.start_row + done),
        |key: u64|
            if in_region_column(key, *range, weight_col) && key / 0x1_0000_0000 < range.start_row
                + done {
                distributed_weight(*sheet, *range, weight_col, (key / 0x1_0000_0000) as u32)
            } else {
                before[key]
            },
    ));
    while done < span
        invariant
            done <= span,
            span == range.end_row - range.start_row + 1,
            range.start_row <= range.end_row,
            weight_col >= 1,
            total == region_total(*sheet, *range, weight_col),
            sum == region_quantity(*sheet, *range, weight_col),
            -0x1_0000_0000_0000_0000_0000_0000 <= sum <= 0x1_0000_0000_0000_0000_0000_0000,
            weights@ == Map::new(
                |key: u64|
                    before.contains_key(key) || (in_region_column(key, *range, weight_col) && key
                        / 0x1_0000_0000 < range.start_row + done),
                |key: u64|
                    if in_region_column(key, *range, weight_col) && key / 0x1_0000_0000
                        < range.start_row + done {
                        distributed_weight(*sheet, *range, weight_col, (key / 0x1_0000_0000) as u32)
                    } else {
                        before[key]
                    },
            ),
        decreases span - done,
    {
        let row: u32 = (range.start_row as u64 + done) as u32;
        let weight: i64 = if sum == 0 {
            0
        } else {
            let quantity: i64 = match sheet.get_amount(row, weight_col - 1) {
                Some(q) => q,
                None => 0,
            };
            round_share(total, quantity, sum)
        };
        assert(weight == distributed_weight(*sheet, *range, weight_col, row));
        let key = key_of(row, weight_col);
        proof {
            lemma_cell_key_parts(row, weight_col);
        }
        let ghost prior = weights@;
        weights.insert(key, weight);
        done += 1;
        assert(weights@ =~= Map::new(
            |key: u64|
                before.contains_key(key) || (in_region_column(key, *range, weight_col) && key
                    / 0x1_0000_0000 < range.start_row + done),
            |key: u64|
                if in_region_column(key, *range, weight_col) && key / 0x1_0000_0000
                    < range.start_row + done {
                    distributed_weight(*sheet, *range, weight_col, (key / 0x1_0000_0000) as u32)
                } else {
                    before[key]
                },
        )) by {
            assert forall|k: u64|
                (in_region_column(k, *range, weight_col) && k / 0x1_0000_0000 == row) implies k
                == key by {
                assert(k == (k / 0x1_0000_0000) * 0x1_0000_0000 + k % 0x1_0000_0000);
            }
        }
    }
    assert(weights@ =~= with_region_weights(before, *sheet, *range, weight_col));
}

/// Shares out the weight of every merged region that reaches across the
/// weight column: from the key of each row's weight cell to the row's
/// weight, in hundredths.
pub fn precompute_weight_distributions(
    sheet: &ExcelSheet,
    merged_ranges: &Vec<MergedRange>,
    weight_col: u32,
) -> (weights: HashMap<u64, i64>)
    requires
        weight_col >= 1,
    ensures
        weights@ == all_region_weights(*sheet, merged_ranges@, weight_col),
{
    let mut weights: HashMap<u64, i64> = HashMap::new();
    let mut i: usize = 0;
    assert(merged_ranges@.take(0) == Seq::<MergedRange>::empty());
    while i < merged_ranges.len()
        invariant
            i <= merged_ranges@.len(),
            weight_col >= 1,
            weights@ == all_region_weights(*sheet, merged_ranges@.take(i as int), weight_col),
        decreases merged_ranges@.len() - i,
    {
        proof {
            assert(merged_ranges@.take(i + 1).drop_last() == merged_ranges@.take(i as int));
            assert(merged_ranges@.take(i + 1).last() == merged_ranges@[i as int]);
        }
        distribute_region(&mut weights, sheet, &merged_ranges[i], weight_col);
        i += 1;
    }
    proof {
        assert(merged_ranges@.take(i as int) == merged_ranges@);
    }
    weights
}

} // verus!
