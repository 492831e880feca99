//! Sources of data and the shaping of what was read into tables.

use vstd::prelude::*;
use vstd::string::*;
use crate::error::EngineError;
use crate::table::{Column, ColumnView, Table, table_well_formed};
use crate::text::{decimal, decimal_text, lemma_decimal_text_is_injective};
use crate::value::{Cell, ColumnType, CellValue, cells_of};

verus! {

/// Where an extractor takes its data from: a file, by its path, or bytes
/// in memory.
pub enum DataSource<'a> {
    File(&'a str),
    Memory(&'a [u8]),
}

/// Hands a source to the reader for its kind: a file path to `file_fn`,
/// bytes in memory to `mem_fn`. The other reader is not called.
pub fn extract_dispatch<'a, T, E, F, M>(
    source: DataSource<'a>,
    file_fn: F,
    mem_fn: M,
) -> (r: Result<T, E>) where
    F: FnOnce(&'a str) -> Result<T, E>,
    M: FnOnce(&'a [u8]) -> Result<T, E>,

    requires
        match source {
            DataSource::File(path) => file_fn.requires((path,)),
            DataSource::Memory(data) => mem_fn.requires((data,)),
        },
    ensures
        match source {
            DataSource::File(path) => file_fn.ensures((path,), r),
            DataSource::Memory(data) => mem_fn.ensures((data,), r),
        },
{
    match source {
        DataSource::File(path) => file_fn(path),
        DataSource::Memory(data) => mem_fn(data),
    }
}

/// The texts of the rows of a sheet.
pub open spec fn rows_of(records: Seq<Vec<String>>) -> Seq<Seq<Seq<char>>> {
    records.map_values(|row: Vec<String>| row@.map_values(|s: String| s@))
}

/// Whether every row has exactly `width` cells.
pub open spec fn all_of_width(rows: Seq<Seq<Seq<char>>>, width: nat) -> bool {
    forall|r: int| 0 <= r < rows.len() ==> (#[trigger] rows[r]).len() == width
}

/// The name of the column at a position: `col` and the position in base ten.
pub open spec fn sheet_column_name(position: nat) -> Seq<char> {
    "col"@ + decimal_text(position)
}

/// Column `c` of a sheet: a text column that holds the cell of every row
/// at that position, the first row included.
pub open spec fn sheet_column(rows: Seq<Seq<Seq<char>>>, c: int) -> ColumnView {
    ColumnView {
        name: sheet_column_name(c as nat),
        declared_type: ColumnType::Str,
        cells: Seq::new(rows.len(), |r: int| Cell::Str(rows[r][c])),
    }
}

/// The table of a sheet whose rows have the width of the first row.
pub open spec fn sheet_table(rows: Seq<Seq<Seq<char>>>) -> Seq<ColumnView> {
    Seq::new(rows[0].len(), |c: int| sheet_column(rows, c))
}

/// The table of a sheet meets the invariant of a table: its columns are
/// equally long text columns, and their names differ.
pub proof fn lemma_sheet_table_is_well_formed(rows: Seq<Seq<Seq<char>>>)
    requires
        rows.len() > 0,
        all_of_width(rows, rows[0].len()),
    ensures
        table_well_formed(sheet_table(rows)),
        sheet_table(rows).len() == rows[0].len(),
{
    let t = sheet_table(rows);
    reveal_strlit("col");
    assert forall|i: int, j: int| 0 <= i < j < t.len() implies (#[trigger] t[i]).name != (
    #[trigger] t[j]).name by {
        let a = sheet_column_name(i as nat);
        let b = sheet_column_name(j as nat);
        if a == b {
            assert(a.subrange(3, a.len() as int) =~= decimal_text(i as nat));
            assert(b.subrange(3, b.len() as int) =~= decimal_text(j as nat));
            lemma_decimal_text_is_injective(i as nat, j as nat);
        }
    }
}

/// Collects the cells at position `c` of every row.
fn sheet_values(records: &Vec<Vec<String>>, c: usize) -> (r: Vec<CellValue>)
    requires
        forall|k: int| 0 <= k < records@.len() ==> c < (#[trigger] records@[k]).len(),
    ensures
        cells_of(r@) == Seq::new(
            records@.len(),
            |k: int| Cell::Str(rows_of(records@)[k][c as int]),
        ),
{
    let mut values: Vec<CellValue> = Vec::new();
    let mut k: usize = 0;
    while k < records.len()
        invariant
            k <= records.len(),
            forall|j: int| 0 <= j < records@.len() ==> c < (#[trigger] records@[j]).len(),
            values.len() == k,
            forall|j: int|
                0 <= j < k ==> (#[trigger] values[j])@ == Cell::Str(records@[j]@[c as int]@),
        decreases records.len() - k,
    {
        assert(c < records@[k as int].len());
        values.push(CellValue::Str(records[k][c].clone()));
        k += 1;
    }
    assert(cells_of(values@) =~= Seq::new(
        records@.len(),
        |j: int| Cell::Str(rows_of(records@)[j][c as int]),
    ));
    values
}

/// Turns the rows of a sheet into a table of text columns.
///
/// The table has one column for each cell of the first row, named `col0`,
/// `col1` and so on, and every row of the sheet, the first included, is a
/// row of the table. Fails with `NoData` for a sheet without rows, and
/// with `MalformedTable` when a row is shorter than the first. No row may
/// be longer than the first.
pub fn sheet_to_table(records: &Vec<Vec<String>>) -> (r: Result<Table, EngineError>)
    requires
        forall|k: int|
            0 <= k < records@.len() ==> (#[trigger] records@[k]).len() <= records@[0].len(),
    ensures
        match r {
            Ok(table) => {
                &&& records@.len() > 0
                &&& all_of_width(rows_of(records@), records@[0].len() as nat)
                &&& table@ == sheet_table(rows_of(records@))
            },
            Err(e) => if records@.len() == 0 {
                e == EngineError::NoData
            } else {
                e == EngineError::MalformedTable && !all_of_width(
                    rows_of(records@),
                    records@[0].len() as nat,
                )
            },
        },
{
    if records.len() == 0 {
        return Err(EngineError::NoData);
    }
    let width = records[0].len();
    let ghost rows = rows_of(records@);
    let mut k: usize = 1;
    while k < records.len()
        invariant
            1 <= k <= records.len(),
            width == records@[0].len(),
            rows == rows_of(records@),
            forall|j: int| 0 <= j < k ==> (#[trigger] rows[j]).len() == width,
        decreases records.len() - k,
    {
        if records[k].len() != width {
            assert(rows[k as int].len() != width);
            return Err(EngineError::MalformedTable);
        }
        k += 1;
    }
    assert(all_of_width(rows, width as nat));
    assert(forall|j: int|
        0 <= j < records@.len() ==> (#[trigger] records@[j]).len() == rows[j].len());
    let mut columns: Vec<Column> = Vec::new();
    let mut c: usize = 0;
    while c < width
        invariant
            c <= width,
            width == records@[0].len(),
            rows == rows_of(records@),
            forall|j: int| 0 <= j < records@.len() ==> (#[trigger] records@[j]).len() == width,
            columns.len() == c,
            forall|j: int| 0 <= j < c ==> (#[trigger] columns[j])@ == sheet_column(rows, j),
        decreases width - c,
    {
        let mut name = String::from_str("col");
        name.append(decimal(c).as_str());
        let values = sheet_values(records, c);
        columns.push(Column { name, declared_type: ColumnType::Str, values });
        c += 1;
    }
    let table = Table { columns };
    assert(table@ =~= sheet_table(rows));
    Ok(table)
}

/// The lines joined by line feeds, with none after the last.
pub open spec fn joined(lines: Seq<Seq<char>>) -> Seq<char>
    decreases lines.len(),
{
    if lines.len() == 0 {
        Seq::empty()
    } else if lines.len() == 1 {
        lines[0]
    } else {
        joined(lines.drop_last()) + seq!['\n'] + lines.last()
    }
}

/// Joins lines with line feeds.
pub fn join_lines(lines: &Vec<String>) -> (r: String)
    ensures
        r@ == joined(lines@.map_values(|s: String| s@)),
{
    let ghost texts = lines@.map_values(|s: String| s@);
    let mut out = String::new();
    let mut i: usize = 0;
    while i < lines.len()
        invariant
            i <= lines.len(),
            texts == lines@.map_values(|s: String| s@),
            out@ == joined(texts.take(i as int)),
        decreases lines.len() - i,
    {
        proof {
            assert(texts.take(i + 1).drop_last() =~= texts.take(i as int));
            assert(texts.take(i + 1).last() == texts[i as int]);
            reveal_strlit("\n");
        }
        if i > 0 {
            out.append("\n");
        }
        out.append(lines[i].as_str());
        proof {
            if i == 0 {
                assert(out@ =~= texts[0]);
            } else {
                assert("\n"@ =~= seq!['\n']);
            }
        }
        i += 1;
    }
    assert(texts.take(i as int) =~= texts);
    out
}

} // verus!
