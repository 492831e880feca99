//! Column selection and row limits.

use vstd::prelude::*;
use crate::error::EngineError;
use crate::filter::{column_position, find_column};
use crate::table::{Column, ColumnView, Table};
use crate::text::text_eq;
use crate::value::{CellValue, cells_of};

verus! {

/// The sum of two numbers that fits 64 bits.
pub fn add(left: u64, right: u64) -> (r: u64)
    requires
        left + right <= u64::MAX,
    ensures
        r == left + right,
{
    left + right
}

/// The texts that a vector of names stands for.
pub open spec fn names_of(v: Seq<String>) -> Seq<Seq<char>> {
    v.map_values(|s: String| s@)
}

/// Whether some name occurs at two positions.
pub open spec fn has_duplicate(names: Seq<Seq<char>>) -> bool {
    exists|i: int, j: int| 0 <= i < j < names.len() && names[i] == names[j]
}

/// Whether the table holds a column of every name.
pub open spec fn all_present(t: Seq<ColumnView>, names: Seq<Seq<char>>) -> bool {
    forall|k: int| 0 <= k < names.len() ==> column_position(t, #[trigger] names[k]) is Some
}

/// The columns of the given names, in the order of the names.
pub open spec fn selected(t: Seq<ColumnView>, names: Seq<Seq<char>>) -> Seq<ColumnView> {
    Seq::new(names.len(), |k: int| t[column_position(t, names[k]).unwrap()])
}

/// The column cut to its first `limit` cells, or whole where it is shorter.
pub open spec fn head_of_column(c: ColumnView, limit: nat) -> ColumnView {
    ColumnView {
        name: c.name,
        declared_type: c.declared_type,
        cells: if c.cells.len() <= limit {
            c.cells
        } else {
            c.cells.take(limit as int)
        },
    }
}

/// The table cut to its first `limit` rows.
pub open spec fn head_of(t: Seq<ColumnView>, limit: nat) -> Seq<ColumnView> {
    t.map_values(|c: ColumnView| head_of_column(c, limit))
}

/// Tells whether some name occurs twice.
fn any_duplicate(names: &Vec<String>) -> (r: bool)
    ensures
        r == has_duplicate(names_of(names@)),
{
    let ghost texts = names_of(names@);
    let mut j: usize = 0;
    while j < names.len()
        invariant
            j <= names.len(),
            texts == names_of(names@),
            forall|a: int, b: int| 0 <= a < b < j ==> texts[a] != texts[b],
        decreases names.len() - j,
    {
        let mut i: usize = 0;
        while i < j
            invariant
                i <= j < names.len(),
                texts == names_of(names@),
                forall|a: int| 0 <= a < i ==> texts[a] != texts[j as int],
            decreases j - i,
        {
            if text_eq(names[i].as_str(), names[j].as_str()) {
                assert(texts[i as int] == texts[j as int]);
                return true;
            }
            i += 1;
        }
        j += 1;
    }
    false
}

/// Selects columns by name, in the order in which they are named.
///
/// Fails with `DuplicateColumn` when a name is given twice, and otherwise
/// with `ColumnNotFound` when the table lacks one of the names. The
/// result holds a copy of each named column; where the table has several
/// columns of one name, the first of them.
pub fn select_columns(df: &Table, columns: &Vec<String>) -> (r: Result<Table, EngineError>)
    ensures
        match r {
            Ok(out) => {
                &&& !has_duplicate(names_of(columns@))
                &&& all_present(df@, names_of(columns@))
                &&& out@ == selected(df@, names_of(columns@))
            },
            Err(e) => if has_duplicate(names_of(columns@)) {
                e == EngineError::DuplicateColumn
            } else {
                e == EngineError::ColumnNotFound && !all_present(df@, names_of(columns@))
            },
        },
{
    if any_duplicate(columns) {
        return Err(EngineError::DuplicateColumn);
    }
    let ghost names = names_of(columns@);
    let mut out: Vec<Column> = Vec::new();
    let mut k: usize = 0;
    while k < columns.len()
        invariant
            k <= columns.len(),
            names == names_of(columns@),
            !has_duplicate(names),
            out.len() == k,
            forall|i: int| 0 <= i < k ==> column_position(df@, #[trigger] names[i]) is Some,
            forall|i: int|
                0 <= i < k ==> 0 <= column_position(df@, #[trigger] names[i]).unwrap() < df@.len(),
            forall|i: int|
                0 <= i < k ==> (#[trigger] out[i])@ == df@[column_position(df@, names[i]).unwrap()],
        decreases columns.len() - k,
    {
        match find_column(df, columns[k].as_str()) {
            Some(i) => {
                out.push(df.columns[i].clone());
            },
            None => {
                assert(column_position(df@, names[k as int]) is None);
                return Err(EngineError::ColumnNotFound);
            },
        }
        k += 1;
    }
    let table = Table { columns: out };
    assert(table@ =~= selected(df@, names));
    Ok(table)
}

/// Copies the first `limit` cells, or all where there are fewer.
fn head_values(values: &Vec<CellValue>, limit: usize) -> (r: Vec<CellValue>)
    ensures
        cells_of(r@) == if values@.len() <= limit {
            cells_of(values@)
        } else {
            cells_of(values@).take(limit as int)
        },
{
    let end = if values.len() <= limit {
        values.len()
    } else {
        limit
    };
    let mut out: Vec<CellValue> = Vec::new();
    let mut i: usize = 0;
    while i < end
        invariant
            i <= end <= values.len(),
            out.len() == i,
            forall|k: int| 0 <= k < i ==> out[k]@ == values[k]@,
        decreases end - i,
    {
        out.push(values[i].clone());
        i += 1;
    }
    assert(cells_of(out@) =~= cells_of(values@).take(end as int));
    assert(cells_of(values@).take(values@.len() as int) =~= cells_of(values@));
    out
}

/// Keeps the first `limit` rows: every column is cut to its first `limit`
/// cells, and a column with fewer cells is kept whole. Never fails.
pub fn limit_rows(df: &Table, limit: usize) -> (r: Result<Table, EngineError>)
    ensures
        r matches Ok(out) && out@ == head_of(df@, limit as nat),
{
    let mut out: Vec<Column> = Vec::new();
    let mut i: usize = 0;
    while i < df.columns.len()
        invariant
            i <= df.columns.len(),
            out.len() == i,
            forall|k: int|
                0 <= k < i ==> (#[trigger] out[k])@ == head_of_column(df@[k], limit as nat),
        decreases df.columns.len() - i,
    {
        let column = &df.columns[i];
        out.push(
            Column {
                name: column.name.clone(),
                declared_type: column.declared_type,
                values: head_values(&column.values, limit),
            },
        );
        i += 1;
    }
    let table = Table { columns: out };
    assert(table@ =~= head_of(df@, limit as nat));
    Ok(table)
}

} // verus!
