//! The history table: one ring of the last 256 usage bytes per row, packed
//! four columns to a word.

use crate::error::SensorError;
use crate::packing::{lane_of, lemma_with_lane, u32d4, u32e4, with_lane};
use vstd::prelude::*;

verus! {

/// Columns of a row: the number of samples a row remembers.
pub const HISTORY_SIZE: usize = 256;

/// Samples that share one word.
pub const LANES: usize = 4;

/// Words that hold one row.
pub const WORDS_PER_ROW: usize = 64;

/// Rows that the table has room for.
pub const ROW_CAPACITY: usize = 32;

/// Words of the whole table.
pub const LOAD_WORDS: usize = 2048;

/// Whether `(row, column)` names a cell of the table.
pub open spec fn in_table(row: int, column: int) -> bool {
    0 <= row < ROW_CAPACITY && 0 <= column < HISTORY_SIZE
}

/// The word that holds column `column` of row `row`.
pub open spec fn word_index(row: int, column: int) -> int {
    row * WORDS_PER_ROW as int + column / LANES as int
}

/// The lane of that word that holds the column.
pub open spec fn lane_index(column: int) -> int {
    column % LANES as int
}

/// The sample at `(row, column)` of the table `load`.
pub open spec fn sample(load: Seq<u32>, row: int, column: int) -> u8 {
    lane_of(load[word_index(row, column)], lane_index(column))
}

/// The table `load` after `value` was written at `(row, column)`: one lane of
/// one word is replaced.
pub open spec fn stored(load: Seq<u32>, row: int, column: int, value: u8) -> Seq<u32> {
    load.update(
        word_index(row, column),
        with_lane(load[word_index(row, column)], lane_index(column), value),
    )
}

/// The column that all rows write in the cycle with frame pointer `frame`.
pub open spec fn column_of(frame: u64) -> int {
    frame as int % HISTORY_SIZE as int
}

/// The frame pointer `cycles` fast cycles after `frame`. It wraps around at
/// the end of its 64 bits.
pub open spec fn advanced(frame: u64, cycles: nat) -> u64 {
    ((frame as int + cycles as int) % 0x1_0000_0000_0000_0000) as u64
}

/// A cell of the table lies in a word of the table, and in one of its lanes.
pub proof fn lemma_cell_in_bounds(row: int, column: int)
    requires
        in_table(row, column),
    ensures
        0 <= word_index(row, column) < LOAD_WORDS,
        0 <= lane_index(column) < LANES,
{
}

/// Two cells that share both word and lane are the same cell: no two cells of
/// the table alias.
pub proof fn lemma_cells_distinct(row: int, column: int, other_row: int, other_column: int)
    requires
        in_table(row, column),
        in_table(other_row, other_column),
        word_index(row, column) == word_index(other_row, other_column),
        lane_index(column) == lane_index(other_column),
    ensures
        row == other_row,
        column == other_column,
{
}

/// Reading a cell right after writing it gives the byte written.
pub proof fn lemma_read_after_write(load: Seq<u32>, row: int, column: int, value: u8)
    requires
        load.len() == LOAD_WORDS,
        in_table(row, column),
    ensures
        sample(stored(load, row, column, value), row, column) == value,
{
    lemma_with_lane(
        load[word_index(row, column)],
        lane_index(column),
        value,
        lane_index(column),
    );
}

/// Writing a cell changes no other cell.
pub proof fn lemma_write_keeps_others(
    load: Seq<u32>,
    row: int,
    column: int,
    value: u8,
    other_row: int,
    other_column: int,
)
    requires
        load.len() == LOAD_WORDS,
        in_table(row, column),
        in_table(other_row, other_column),
        row != other_row || column != other_column,
    ensures
        sample(stored(load, row, column, value), other_row, other_column) == sample(
            load,
            other_row,
            other_column,
        ),
{
    if word_index(row, column) == word_index(other_row, other_column) {
        lemma_with_lane(
            load[word_index(row, column)],
            lane_index(column),
            value,
            lane_index(other_column),
        );
    }
}

/// A second write to a cell replaces what the first one left there.
pub proof fn lemma_write_overwrites(load: Seq<u32>, row: int, column: int, first: u8, second: u8)
    requires
        load.len() == LOAD_WORDS,
        in_table(row, column),
    ensures
        sample(stored(stored(load, row, column, first), row, column, second), row, column)
            == second,
{
    lemma_read_after_write(stored(load, row, column, first), row, column, second);
}

/// Each fast cycle moves the write column one to the right, and from the last
/// column back to the first; the wrap-around of the frame pointer itself does
/// not disturb this.
pub proof fn lemma_column_advances(frame: u64, cycles: nat)
    ensures
        column_of(advanced(frame, cycles)) == (column_of(frame) + cycles) % (HISTORY_SIZE as int),
        advanced(frame, 0) == frame,
        advanced(advanced(frame, cycles), 1) == advanced(frame, cycles + 1),
{
    let sum = frame as int + cycles as int;
    let modulus = 0x1_0000_0000_0000_0000int;
    assert(modulus == 256 * 0x100_0000_0000_0000int);
    vstd::arithmetic::div_mod::lemma_mod_mod(sum, 256, 0x100_0000_0000_0000int);
    vstd::arithmetic::div_mod::lemma_add_mod_noop(frame as int, cycles as int, 256);
    vstd::arithmetic::div_mod::lemma_mod_twice(cycles as int, 256);
    vstd::arithmetic::div_mod::lemma_add_mod_noop(column_of(frame), cycles as int, 256);
    vstd::arithmetic::div_mod::lemma_mod_twice(frame as int, 256);
    vstd::arithmetic::div_mod::lemma_add_mod_noop(sum % modulus, 1, modulus);
    vstd::arithmetic::div_mod::lemma_add_mod_noop(sum, 1, modulus);
}

/// The write column takes 256 different values in 256 consecutive cycles and
/// then comes back to where it started: the cycle that follows the 256th
/// writes where the first one wrote.
pub proof fn lemma_ring_wraps(frame: u64, first: nat, second: nat)
    requires
        first < second,
    ensures
        second - first < HISTORY_SIZE ==> column_of(advanced(frame, first)) != column_of(
            advanced(frame, second),
        ),
        second - first == HISTORY_SIZE ==> column_of(advanced(frame, first)) == column_of(
            advanced(frame, second),
        ),
{
    lemma_column_advances(frame, first);
    lemma_column_advances(frame, second);
    let base = column_of(frame);
    let a = base + first;
    let b = base + second;
    if b - a == 256 {
        vstd::arithmetic::div_mod::lemma_mod_add_multiples_vanish(a, 256);
    } else if b - a < 256 && a % 256 == b % 256 {
        vstd::arithmetic::div_mod::lemma_fundamental_div_mod(a, 256);
        vstd::arithmetic::div_mod::lemma_fundamental_div_mod(b, 256);
        let qa = a / 256;
        let qb = b / 256;
        assert(b - a == 256 * (qb - qa)) by (nonlinear_arith)
            requires
                a == 256 * qa + a % 256,
                b == 256 * qb + b % 256,
                a % 256 == b % 256,
        ;
        assert(false) by (nonlinear_arith)
            requires
                b - a == 256 * (qb - qa),
                0 < b - a < 256,
        ;
    }
}

/// A sample lives for 256 fast cycles: what the cycle after `frame` writes
/// into a row is still there until the 257th cycle after `frame` writes the
/// same cell again.
pub proof fn lemma_oldest_sample_overwritten(
    load: Seq<u32>,
    row: int,
    frame: u64,
    oldest: u8,
    newest: u8,
)
    requires
        load.len() == LOAD_WORDS,
        0 <= row < ROW_CAPACITY,
    ensures
        column_of(advanced(frame, 1 + HISTORY_SIZE as nat)) == column_of(advanced(frame, 1)),
        sample(
            stored(
                stored(load, row, column_of(advanced(frame, 1)), oldest),
                row,
                column_of(advanced(frame, 1 + HISTORY_SIZE as nat)),
                newest,
            ),
            row,
            column_of(advanced(frame, 1)),
        ) == newest,
{
    lemma_ring_wraps(frame, 1, 1 + HISTORY_SIZE as nat);
    lemma_write_overwrites(load, row, column_of(advanced(frame, 1)), oldest, newest);
}

/// The sample at `(row, column)`, or why there is none.
pub fn read_sample(load: &[u32; 2048], row: usize, column: usize) -> (result: Result<
    u8,
    SensorError,
>)
    ensures
        in_table(row as int, column as int) ==> result == Ok::<u8, SensorError>(
            sample(load@, row as int, column as int),
        ),
        row >= ROW_CAPACITY ==> result == Err::<u8, SensorError>(SensorError::RowOutOfRange),
        row < ROW_CAPACITY && column >= HISTORY_SIZE ==> result == Err::<u8, SensorError>(
            SensorError::ColumnOutOfRange,
        ),
{
    if row >= ROW_CAPACITY {
        return Err(SensorError::RowOutOfRange);
    }
    if column >= HISTORY_SIZE {
        return Err(SensorError::ColumnOutOfRange);
    }
    let page_index: usize = row * WORDS_PER_ROW + column / LANES;
    let byte_index: usize = column % LANES;
    let page: Vec<u8> = u32d4(load[page_index]);
    Ok(page[byte_index])
}

/// Writes `value` at `(row, column)` and leaves every other sample as it was.
/// A cell outside the table is refused and nothing is written.
pub fn write_sample(load: &mut [u32; 2048], row: usize, column: usize, value: u8) -> (result:
    Result<(), SensorError>)
    ensures
        in_table(row as int, column as int) ==> result == Ok::<(), SensorError>(())
            && final(load)@ == stored(
            old(load)@,
            row as int,
            column as int,
            value,
        ),
        !in_table(row as int, column as int) ==> *final(load) == *old(load),
        row >= ROW_CAPACITY ==> result == Err::<(), SensorError>(SensorError::RowOutOfRange),
        row < ROW_CAPACITY && column >= HISTORY_SIZE ==> result == Err::<(), SensorError>(
            SensorError::ColumnOutOfRange,
        ),
{
    if row >= ROW_CAPACITY {
        return Err(SensorError::RowOutOfRange);
    }
    if column >= HISTORY_SIZE {
        return Err(SensorError::ColumnOutOfRange);
    }
    let page_index: usize = row * WORDS_PER_ROW + column / LANES;
    let byte_index: usize = column % LANES;
    let mut page: Vec<u8> = u32d4(load[page_index]);
    page[byte_index] = value;
    let word: u32 = u32e4(page[0], page[1], page[2], page[3]);
    load[page_index] = word;
    proof {
        assert(final(load)@ =~= stored(old(load)@, row as int, column as int, value));
    }
    Ok(())
}

} // verus!
